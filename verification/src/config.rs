//! The resolved application configuration and its boot-time checks: the authorization tables,
//! the per-pipeline tool grants and their defaults, and prompt lookup.

use vstd::prelude::*;

use crate::agent::wiring::views;
use crate::search::{first_where, is_first, lemma_first_where_none, lemma_first_where_some};
use crate::text::{all_ws, concat2, concat3, is_blank, push_str, str_eq, to_owned_string,
    u64_to_decimal, decimal};

verus! {

/// `items` separated by `, ` (`[String]::join(", ")`).
pub open spec fn comma_joined(items: Seq<Seq<char>>) -> Seq<char>
    decreases items.len(),
{
    if items.len() == 0 {
        Seq::empty()
    } else if items.len() == 1 {
        items[0]
    } else {
        comma_joined(items.drop_last()) + ", "@ + items.last()
    }
}

/// Joins strings with `, `.
pub fn join_comma(items: &[String]) -> (r: String)
    ensures
        r@ == comma_joined(views(items@)),
{
    let mut out = String::new();
    let mut i: usize = 0;
    while i < items.len()
        invariant
            i <= items.len(),
            out@ == comma_joined(views(items@).take(i as int)),
        decreases items.len() - i,
    {
        proof {
            let t = views(items@).take(i as int + 1);
            assert(t.drop_last() =~= views(items@).take(i as int));
            assert(t.last() == items@[i as int]@);
        }
        if i > 0 {
            push_str(&mut out, ", ");
        }
        push_str(&mut out, items[i].as_str());
        proof {
            let t = views(items@).take(i as int + 1);
            if i == 0 {
                assert(out@ =~= comma_joined(t));
            } else {
                assert(out@ =~= comma_joined(t));
            }
        }
        i += 1;
    }
    assert(views(items@).take(items.len() as int) =~= views(items@));
    out
}

/// Whether some string of `v` equals `name`.
fn contains_name(v: &[String], name: &str) -> (r: bool)
    ensures
        r == views(v@).contains(name@),
{
    let mut i: usize = 0;
    while i < v.len()
        invariant
            i <= v.len(),
            forall|j: int| 0 <= j < i ==> (#[trigger] v@[j])@ != name@,
        decreases v.len() - i,
    {
        if str_eq(v[i].as_str(), name) {
            assert(views(v@)[i as int] == name@);
            return true;
        }
        i += 1;
    }
    proof {
        if views(v@).contains(name@) {
            let k = choose|k: int| 0 <= k < views(v@).len() && views(v@)[k] == name@;
            assert(v@[k]@ == name@);
        }
    }
    false
}

/// Tool `i` of `tools` is not advertised.
pub open spec fn unadvertised_at(tools: Seq<Seq<char>>, advertised: Seq<Seq<char>>) -> spec_fn(
    int,
) -> bool {
    |i: int| !advertised.contains(tools[i])
}

/// The rejection of a granted name the MCP server does not advertise.
pub open spec fn err_unadvertised(place: Seq<char>, tool: Seq<char>, advertised: Seq<Seq<char>>) -> Seq<
    char,
> {
    "config_error: "@ + place + " names `"@ + tool
        + "`, which the MCP server does not advertise; advertised tools are: "@ + comma_joined(
        advertised,
    )
}

/// The first tool of `tools` the server does not advertise, as its rejection.
pub open spec fn unadvertised_check(
    tools: Seq<Seq<char>>,
    advertised: Seq<Seq<char>>,
    place: Seq<char>,
) -> Option<Seq<char>> {
    match first_where(tools.len() as int, unadvertised_at(tools, advertised)) {
        Some(i) => Some(err_unadvertised(place, tools[i], advertised)),
        None => None,
    }
}

/// Fails on the first granted name the MCP server does not advertise.
pub fn reject_unadvertised(tools: &[String], advertised: &[String], place: &str) -> (r: Result<
    (),
    String,
>)
    ensures
        r is Ok <==> unadvertised_check(views(tools@), views(advertised@), place@) is None,
        r matches Err(e) ==> unadvertised_check(views(tools@), views(advertised@), place@) == Some(
            e@,
        ),
{
    let ghost t = views(tools@);
    let ghost adv = views(advertised@);
    let mut i: usize = 0;
    while i < tools.len()
        invariant
            i <= tools.len(),
            t == views(tools@),
            adv == views(advertised@),
            forall|j: int| 0 <= j < i ==> !#[trigger] unadvertised_at(t, adv)(j),
        decreases tools.len() - i,
    {
        if !contains_name(advertised, tools[i].as_str()) {
            proof {
                lemma_first_where_some(t.len() as int, unadvertised_at(t, adv), i as int);
            }
            let mut e = concat2("config_error: ", place);
            push_str(&mut e, " names `");
            push_str(&mut e, tools[i].as_str());
            push_str(
                &mut e,
                "`, which the MCP server does not advertise; advertised tools are: ",
            );
            let list = join_comma(advertised);
            push_str(&mut e, list.as_str());
            assert(e@ =~= err_unadvertised(place@, t[i as int], adv));
            return Err(e);
        }
        i += 1;
    }
    proof {
        lemma_first_where_none(t.len() as int, unadvertised_at(t, adv));
    }
    Ok(())
}

/// The keys of a key-ordered table.
pub open spec fn table_keys(table: Seq<(String, Vec<String>)>) -> Seq<Seq<char>> {
    table.map_values(|e: (String, Vec<String>)| e.0@)
}

/// `[authz]`: the permission and intent mapping tables the authorization gate intersects, each
/// held as its rows in key order.
#[derive(Debug, Clone)]
pub struct AuthzConfig {
    /// Permission code to the MCP data tools it unlocks.
    pub permission_tools: Vec<(String, Vec<String>)>,
    /// Runtime intent to the tools that intent requires.
    pub intent_tools: Vec<(String, Vec<String>)>,
    /// Permission codes any one of which unlocks the ss-chat pipeline's full grant.
    pub ss_chat_permissions: Vec<String>,
}

/// Allowlisted intent `i` has no row.
pub open spec fn uncovered_at(allow: Seq<Seq<char>>, keys: Seq<Seq<char>>) -> spec_fn(int) -> bool {
    |i: int| !keys.contains(allow[i])
}

/// The rejection of an allowlisted intent with no `[authz.intent_tools]` row.
pub open spec fn err_uncovered_intent(intent: Seq<char>) -> Seq<char> {
    "config_error: intent `"@ + intent
        + "` has no row in [authz.intent_tools]; every intent in the runtime allowlist needs one, so a gap fails boot instead of becoming a silent default-deny at request time"@
}

/// The first row of a table naming an unadvertised tool, as its rejection; `prefix` names the
/// table (`[authz.intent_tools].`).
pub open spec fn table_check(
    table: Seq<(String, Vec<String>)>,
    advertised: Seq<Seq<char>>,
    prefix: Seq<char>,
) -> Option<Seq<char>> {
    match first_where(
        table.len() as int,
        |k: int| unadvertised_check(views(table[k].1@), advertised, prefix + table[k].0@) is Some,
    ) {
        Some(k) => unadvertised_check(views(table[k].1@), advertised, prefix + table[k].0@),
        None => None,
    }
}

/// The first rejection of the `[authz]` tables: an uncovered intent, then an unadvertised tool in
/// `intent_tools`, then in `permission_tools`.
pub open spec fn authz_check(
    a: AuthzConfig,
    allow: Seq<Seq<char>>,
    advertised: Seq<Seq<char>>,
) -> Option<Seq<char>> {
    match first_where(allow.len() as int, uncovered_at(allow, table_keys(a.intent_tools@))) {
        Some(i) => Some(err_uncovered_intent(allow[i])),
        None => if table_check(a.intent_tools@, advertised, "[authz.intent_tools]."@) is Some {
            table_check(a.intent_tools@, advertised, "[authz.intent_tools]."@)
        } else {
            table_check(a.permission_tools@, advertised, "[authz.permission_tools]."@)
        },
    }
}

/// Whether some row of `table` has key `key`.
fn has_key(table: &Vec<(String, Vec<String>)>, key: &str) -> (r: bool)
    ensures
        r == table_keys(table@).contains(key@),
{
    let mut i: usize = 0;
    while i < table.len()
        invariant
            i <= table.len(),
            forall|j: int| 0 <= j < i ==> (#[trigger] table@[j]).0@ != key@,
        decreases table.len() - i,
    {
        if str_eq(table[i].0.as_str(), key) {
            assert(table_keys(table@)[i as int] == key@);
            return true;
        }
        i += 1;
    }
    proof {
        if table_keys(table@).contains(key@) {
            let k = choose|k: int| 0 <= k < table_keys(table@).len() && table_keys(table@)[k] == key@;
            assert(table@[k].0@ == key@);
        }
    }
    false
}

/// Checks every row of a table against the advertised tools.
fn check_table(table: &Vec<(String, Vec<String>)>, advertised: &[String], prefix: &str) -> (r:
    Result<(), String>)
    ensures
        r is Ok <==> table_check(table@, views(advertised@), prefix@) is None,
        r matches Err(e) ==> table_check(table@, views(advertised@), prefix@) == Some(e@),
{
    let ghost adv = views(advertised@);
    let ghost p = |k: int|
        unadvertised_check(views(table@[k].1@), adv, prefix@ + table@[k].0@) is Some;
    let mut k: usize = 0;
    while k < table.len()
        invariant
            k <= table.len(),
            adv == views(advertised@),
            p == (|k: int|
                unadvertised_check(views(table@[k].1@), adv, prefix@ + table@[k].0@) is Some),
            forall|j: int| 0 <= j < k ==> !#[trigger] p(j),
        decreases table.len() - k,
    {
        let place = concat2(prefix, table[k].0.as_str());
        match reject_unadvertised(table[k].1.as_slice(), advertised, place.as_str()) {
            Err(e) => {
                proof {
                    assert(p(k as int));
                    lemma_first_where_some(table.len() as int, p, k as int);
                }
                return Err(e);
            },
            Ok(()) => {},
        }
        k += 1;
    }
    proof {
        lemma_first_where_none(table.len() as int, p);
    }
    Ok(())
}

impl AuthzConfig {
    /// Boot-time validation of both tables: every allowlisted intent needs an
    /// `[authz.intent_tools]` row, and neither table may name a tool the server does not
    /// advertise.
    pub fn validate(&self, intent_allowlist: &[String], advertised: &[String]) -> (r: Result<
        (),
        String,
    >)
        ensures
            r is Ok <==> authz_check(*self, views(intent_allowlist@), views(advertised@)) is None,
            r matches Err(e) ==> authz_check(*self, views(intent_allowlist@), views(advertised@))
                == Some(e@),
    {
        let ghost allow = views(intent_allowlist@);
        let ghost keys = table_keys(self.intent_tools@);
        let mut i: usize = 0;
        while i < intent_allowlist.len()
            invariant
                i <= intent_allowlist.len(),
                allow == views(intent_allowlist@),
                keys == table_keys(self.intent_tools@),
                forall|j: int| 0 <= j < i ==> !#[trigger] uncovered_at(allow, keys)(j),
            decreases intent_allowlist.len() - i,
        {
            if !has_key(&self.intent_tools, intent_allowlist[i].as_str()) {
                proof {
                    lemma_first_where_some(allow.len() as int, uncovered_at(allow, keys), i as int);
                }
                let mut e = concat2("config_error: intent `", intent_allowlist[i].as_str());
                push_str(
                    &mut e,
                    "` has no row in [authz.intent_tools]; every intent in the runtime allowlist needs one, so a gap fails boot instead of becoming a silent default-deny at request time",
                );
                return Err(e);
            }
            i += 1;
        }
        proof {
            lemma_first_where_none(allow.len() as int, uncovered_at(allow, keys));
        }
        check_table(&self.intent_tools, advertised, "[authz.intent_tools].")?;
        check_table(&self.permission_tools, advertised, "[authz.permission_tools].")
    }
}

/// `[identity]`: how the runtime reaches the permissions endpoint.
#[derive(Debug, Clone, PartialEq, Eq)]
pub struct IdentityConfig {
    /// Base URL of the permissions API; must come from config or the environment.
    pub base_url: Option<String>,
    /// How long a successful lookup is reused, in milliseconds (non-zero).
    pub positive_ttl_ms: u64,
    /// How long a failed lookup is replayed from cache, in milliseconds (non-zero).
    pub negative_ttl_ms: u64,
    /// Per-request timeout, in milliseconds (non-zero).
    pub request_timeout_ms: u64,
}

/// `IdentityConfig` after boot resolution: the base URL is present.
#[derive(Debug, Clone, PartialEq, Eq)]
pub struct ResolvedIdentityConfig {
    pub base_url: String,
    pub positive_ttl_ms: u64,
    pub negative_ttl_ms: u64,
    pub request_timeout_ms: u64,
}

/// `[server.rate_limit.per_actor]`: the inner token bucket, keyed by actor.
#[derive(Debug, Clone, PartialEq, Eq)]
pub struct PerActorRateLimitConfig {
    /// Burst size per actor (non-zero).
    pub burst_size: u32,
    /// Refill period per actor, in milliseconds (non-zero).
    pub refill_period_ms: u64,
    /// Upper bound on tracked actors (non-zero).
    pub max_tracked_actors: u32,
}

/// `[server.rate_limit]`: the opt-in global burst limiter.
#[derive(Debug, Clone)]
pub struct RateLimitConfig {
    /// Whether the limiter is attached at all.
    pub enabled: bool,
    /// Token-bucket burst size (non-zero).
    pub burst_size: u32,
    /// One admission token refills every this many milliseconds (non-zero).
    pub refill_period_ms: u64,
    /// The inner, identity-keyed layer.
    pub per_actor: Option<PerActorRateLimitConfig>,
}

impl Default for RateLimitConfig {
    /// The absent-section shape: disabled, with placeholder policy values.
    fn default() -> (r: Self)
        ensures
            !r.enabled,
            r.burst_size == 1,
            r.refill_period_ms == 1000,
            r.per_actor is None,
    {
        RateLimitConfig { enabled: false, burst_size: 1, refill_period_ms: 1000, per_actor: None }
    }
}

/// `[report.grants]`: the report pipeline's own tool ceiling.
#[derive(Debug, Clone, PartialEq, Eq)]
pub struct ReportGrants {
    /// The report fetcher's granted data tools, by MCP wire name.
    pub fetcher: Vec<String>,
}

impl ReportGrants {
    /// Boot-time validation that every granted name is advertised.
    pub fn validate(&self, advertised: &[String]) -> (r: Result<(), String>)
        ensures
            r is Ok <==> unadvertised_check(
                views(self.fetcher@),
                views(advertised@),
                "[report.grants].fetcher"@,
            ) is None,
            r matches Err(e) ==> unadvertised_check(
                views(self.fetcher@),
                views(advertised@),
                "[report.grants].fetcher"@,
            ) == Some(e@),
    {
        reject_unadvertised(self.fetcher.as_slice(), advertised, "[report.grants].fetcher")
    }
}

/// The fetcher's default grant: the wildcard, every advertised tool.
pub fn default_fetcher_grant() -> (r: Vec<String>)
    ensures
        views(r@) == seq!["*"@],
{
    let r = vec![to_owned_string("*")];
    assert(views(r@) =~= seq!["*"@]);
    r
}

/// The charter's default grant: the built-in `emit_chart` sink only.
pub fn default_charter_grant() -> (r: Vec<String>)
    ensures
        views(r@) == seq!["emit_chart"@],
{
    let r = vec![to_owned_string("emit_chart")];
    assert(views(r@) =~= seq!["emit_chart"@]);
    r
}

/// The six `ss_*` investor-platform tools, the ss-chat fetcher's default grant.
pub open spec fn ss_fetcher_tools() -> Seq<Seq<char>> {
    seq![
        "ss_sunshine_hours"@,
        "ss_energy_storage"@,
        "ss_power_wheeling"@,
        "ss_power_pipeline"@,
        "ss_btm_projects"@,
        "ss_ftm_projects"@,
    ]
}

/// The ss-chat fetcher's default grant: the six `ss_*` tools, never the wildcard.
pub fn default_ss_fetcher_grant() -> (r: Vec<String>)
    ensures
        views(r@) == ss_fetcher_tools(),
{
    let r = vec![
        to_owned_string("ss_sunshine_hours"),
        to_owned_string("ss_energy_storage"),
        to_owned_string("ss_power_wheeling"),
        to_owned_string("ss_power_pipeline"),
        to_owned_string("ss_btm_projects"),
        to_owned_string("ss_ftm_projects"),
    ];
    assert(views(r@) =~= ss_fetcher_tools());
    r
}

/// Resolved `/insight` tool grants.
#[derive(Debug, Clone)]
pub struct InsightGrants {
    /// The fetcher's granted data tools (or the wildcard).
    pub fetcher: Vec<String>,
    /// The charter's granted tools.
    pub charter: Vec<String>,
}

impl Default for InsightGrants {
    /// The grants when `[insight]` is absent: the wildcard fetcher and the `emit_chart` charter.
    fn default() -> (r: Self)
        ensures
            views(r.fetcher@) == seq!["*"@],
            views(r.charter@) == seq!["emit_chart"@],
    {
        InsightGrants { fetcher: default_fetcher_grant(), charter: default_charter_grant() }
    }
}

/// Resolved `/ss-chat` tool grants.
#[derive(Debug, Clone)]
pub struct SsChatGrants {
    /// The ss-chat fetcher's granted data tools.
    pub fetcher: Vec<String>,
    /// The ss-chat charter's granted tools.
    pub charter: Vec<String>,
}

impl Default for SsChatGrants {
    /// The grants when `[ss_chat]` is absent: the six `ss_*` tools and the `emit_chart` charter.
    fn default() -> (r: Self)
        ensures
            views(r.fetcher@) == ss_fetcher_tools(),
            views(r.charter@) == seq!["emit_chart"@],
    {
        SsChatGrants { fetcher: default_ss_fetcher_grant(), charter: default_charter_grant() }
    }
}

/// A path resolved against the manifest's directory: absolute paths stand, relative ones are
/// joined below `root` (as `Path::join` does on Unix).
pub open spec fn resolved_path(root: Seq<char>, p: Seq<char>) -> Seq<char> {
    if p.len() > 0 && p[0] == '/' {
        p
    } else if root.len() == 0 {
        p
    } else if root.last() == '/' {
        root + p
    } else {
        root + seq!['/'] + p
    }
}

/// Resolves `p` against the manifest directory `root`.
pub fn resolve_relative(root: &str, p: &str) -> (r: String)
    ensures
        r@ == resolved_path(root@, p@),
{
    let pc = crate::text::chars_vec(p);
    let rc = crate::text::chars_vec(root);
    if pc.len() > 0 && pc[0] == '/' {
        to_owned_string(p)
    } else if rc.len() == 0 {
        to_owned_string(p)
    } else if rc[rc.len() - 1] == '/' {
        concat2(root, p)
    } else {
        let mut s = to_owned_string(root);
        s.push('/');
        push_str(&mut s, p);
        s
    }
}

/// Resolved runtime references and assembly from the host config; paths are resolved strings.
#[derive(Debug, Clone)]
pub struct RuntimeRefs {
    pub intents: String,
    pub lexicon: String,
    pub thresholds: String,
    pub injection: String,
    /// Ordered input pipeline stage ids.
    pub input_stages: Vec<String>,
    pub answer_policy_backend: String,
    pub llm_normalizer_enabled: bool,
    pub llm_normalizer_backend: String,
    pub memory_enabled: bool,
    pub memory_backend: String,
    pub audit_sink: String,
    pub audit_failure_policy: String,
    pub guardrails: Vec<String>,
    pub slot_extractors: Vec<String>,
    pub pipeline_evaluators: Vec<String>,
    pub response_evaluators: Vec<String>,
    pub eval_fixtures: String,
    pub response_baseline: String,
}

/// The fully-resolved application config; prompt bodies are held by id in key order.
#[derive(Debug, Clone)]
pub struct AppConfig {
    /// Directory the manifest was loaded from.
    pub root: String,
    /// Loaded prompt bodies, `(id, body)` in id order.
    pub prompts: Vec<(String, String)>,
    pub runtime: Option<RuntimeRefs>,
    pub insight_grants: InsightGrants,
    pub ss_chat_grants: SsChatGrants,
    /// The `/report` HTML template body.
    pub report_template: String,
    pub rate_limit: RateLimitConfig,
    pub identity: Option<IdentityConfig>,
    pub authz: Option<AuthzConfig>,
    pub report_grants: Option<ReportGrants>,
}

/// The body of the first prompt with id `id`, if any.
pub open spec fn prompt_lookup(prompts: Seq<(String, String)>, id: Seq<char>) -> Option<Seq<char>> {
    match first_where(prompts.len() as int, |i: int| prompts[i].0@ == id) {
        Some(i) => Some(prompts[i].1@),
        None => None,
    }
}

/// The rejection of a missing prompt id.
pub open spec fn err_missing_prompt(id: Seq<char>) -> Seq<char> {
    "prompt `"@ + id + "` missing from app config"@
}

impl AppConfig {
    /// Looks up a loaded prompt body by id.
    pub fn get_prompt_by_id(&self, id: &str) -> (r: Result<&str, String>)
        ensures
            match prompt_lookup(self.prompts@, id@) {
                Some(body) => r matches Ok(b) && b@ == body,
                None => r matches Err(e) && e@ == err_missing_prompt(id@),
            },
    {
        let ghost ps = self.prompts@;
        let ghost p = |i: int| ps[i].0@ == id@;
        let mut i: usize = 0;
        while i < self.prompts.len()
            invariant
                i <= self.prompts.len(),
                ps == self.prompts@,
                p == (|i: int| ps[i].0@ == id@),
                forall|j: int| 0 <= j < i ==> !#[trigger] p(j),
            decreases self.prompts.len() - i,
        {
            if str_eq(self.prompts[i].0.as_str(), id) {
                proof {
                    lemma_first_where_some(ps.len() as int, p, i as int);
                }
                return Ok(self.prompts[i].1.as_str());
            }
            i += 1;
        }
        proof {
            lemma_first_where_none(ps.len() as int, p);
        }
        let mut e = concat2("prompt `", id);
        push_str(&mut e, "` missing from app config");
        Err(e)
    }
}


/// The manifest schema version this build reads.
pub const SUPPORTED_VERSION: u32 = 1;

/// The rejection of a manifest written for another schema version.
pub open spec fn err_version(path: Seq<char>, version: nat) -> Seq<char> {
    path + ": unsupported config version "@ + decimal(version) + " (this binary expects 1)"@
}

/// Checks the manifest's schema version.
pub fn check_config_version(path: &str, version: u32) -> (r: Result<(), String>)
    ensures
        version == SUPPORTED_VERSION ==> r is Ok,
        version != SUPPORTED_VERSION ==> (r matches Err(e) && e@ == err_version(path@, version as nat)),
{
    if version == SUPPORTED_VERSION {
        return Ok(());
    }
    let v = u64_to_decimal(version as u64);
    let mut e = concat2(path, ": unsupported config version ");
    push_str(&mut e, v.as_str());
    push_str(&mut e, " (this binary expects 1)");
    Err(e)
}

/// The rejection of an empty prompt body.
pub open spec fn err_empty_prompt(id: Seq<char>, file: Seq<char>) -> Seq<char> {
    "prompt `"@ + id + "` at "@ + file + " is empty — refusing to ship an empty system message"@
}

/// Accepts a prompt body read from `file` unless it is blank.
pub fn check_prompt_body(id: &str, file: &str, body: String) -> (r: Result<String, String>)
    ensures
        all_ws(body@) ==> (r matches Err(e) && e@ == err_empty_prompt(id@, file@)),
        !all_ws(body@) ==> r == Ok::<String, String>(body),
{
    if is_blank(body.as_str()) {
        let mut e = concat3("prompt `", id, "` at ");
        push_str(&mut e, file);
        push_str(&mut e, " is empty — refusing to ship an empty system message");
        return Err(e);
    }
    Ok(body)
}

/// The rejection of an empty report template.
pub open spec fn err_empty_template(file: Seq<char>) -> Seq<char> {
    "report template at "@ + file + " is empty — refusing to ship an empty report template"@
}

/// Accepts the report template read from `file` unless it is blank.
pub fn check_template_body(file: &str, body: String) -> (r: Result<String, String>)
    ensures
        all_ws(body@) ==> (r matches Err(e) && e@ == err_empty_template(file@)),
        !all_ws(body@) ==> r == Ok::<String, String>(body),
{
    if is_blank(body.as_str()) {
        return Err(concat3("report template at ", file, " is empty — refusing to ship an empty report template"));
    }
    Ok(body)
}

/// The report template path used when `[report]` names none.
pub fn default_report_template() -> (r: String)
    ensures
        r@ == "report_template/report.html"@,
{
    to_owned_string("report_template/report.html")
}

/// The `[runtime]` section as written: pack files relative to the manifest, and the assembly.
#[derive(Debug, Clone)]
pub struct RuntimeManifest {
    pub intents: String,
    pub lexicon: String,
    pub thresholds: String,
    pub injection: String,
    pub input_stages: Vec<String>,
    pub answer_policy_backend: String,
    pub llm_normalizer_enabled: bool,
    pub llm_normalizer_backend: String,
    pub memory_enabled: bool,
    pub memory_backend: String,
    pub audit_sink: String,
    pub audit_failure_policy: String,
    pub guardrails: Vec<String>,
    pub slot_extractors: Vec<String>,
    pub pipeline_evaluators: Vec<String>,
    pub response_evaluators: Vec<String>,
    pub eval_fixtures: String,
    pub eval_baseline: String,
}

/// `x` is the section `m` with its pack, fixture and baseline paths resolved against `root`
/// and its assembly passed through.
pub open spec fn refs_resolved(x: RuntimeRefs, root: Seq<char>, m: RuntimeManifest) -> bool {
    &&& x.intents@ == resolved_path(root, m.intents@)
    &&& x.lexicon@ == resolved_path(root, m.lexicon@)
    &&& x.thresholds@ == resolved_path(root, m.thresholds@)
    &&& x.injection@ == resolved_path(root, m.injection@)
    &&& x.eval_fixtures@ == resolved_path(root, m.eval_fixtures@)
    &&& x.response_baseline@ == resolved_path(root, m.eval_baseline@)
    &&& x.input_stages == m.input_stages
    &&& x.answer_policy_backend == m.answer_policy_backend
    &&& x.llm_normalizer_enabled == m.llm_normalizer_enabled
    &&& x.llm_normalizer_backend == m.llm_normalizer_backend
    &&& x.memory_enabled == m.memory_enabled
    &&& x.memory_backend == m.memory_backend
    &&& x.audit_sink == m.audit_sink
    &&& x.audit_failure_policy == m.audit_failure_policy
    &&& x.guardrails == m.guardrails
    &&& x.slot_extractors == m.slot_extractors
    &&& x.pipeline_evaluators == m.pipeline_evaluators
    &&& x.response_evaluators == m.response_evaluators
}

impl RuntimeRefs {
    /// Resolves the section's pack paths against the manifest directory; the assembly passes
    /// through.
    pub fn resolve(root: &str, m: RuntimeManifest) -> (r: Self)
        ensures
            refs_resolved(r, root@, m),
    {
        RuntimeRefs {
            intents: resolve_relative(root, m.intents.as_str()),
            lexicon: resolve_relative(root, m.lexicon.as_str()),
            thresholds: resolve_relative(root, m.thresholds.as_str()),
            injection: resolve_relative(root, m.injection.as_str()),
            eval_fixtures: resolve_relative(root, m.eval_fixtures.as_str()),
            response_baseline: resolve_relative(root, m.eval_baseline.as_str()),
            input_stages: m.input_stages,
            answer_policy_backend: m.answer_policy_backend,
            llm_normalizer_enabled: m.llm_normalizer_enabled,
            llm_normalizer_backend: m.llm_normalizer_backend,
            memory_enabled: m.memory_enabled,
            memory_backend: m.memory_backend,
            audit_sink: m.audit_sink,
            audit_failure_policy: m.audit_failure_policy,
            guardrails: m.guardrails,
            slot_extractors: m.slot_extractors,
            pipeline_evaluators: m.pipeline_evaluators,
            response_evaluators: m.response_evaluators,
        }
    }
}

/// The parsed manifest's optional sections, with the prompt bodies and the report template
/// already read.
pub struct ManifestParts {
    pub prompts: Vec<(String, String)>,
    pub runtime: Option<RuntimeManifest>,
    pub insight_grants: Option<InsightGrants>,
    pub ss_chat_grants: Option<SsChatGrants>,
    pub report_template: String,
    pub report_grants: Option<ReportGrants>,
    pub rate_limit: Option<RateLimitConfig>,
    pub identity: Option<IdentityConfig>,
    pub authz: Option<AuthzConfig>,
}

impl AppConfig {
    /// Assembles the config from a manifest in directory `root`: the runtime paths are resolved
    /// against `root`, and every absent section takes its in-code default.
    pub fn from_parts(root: String, parts: ManifestParts) -> (r: Self)
        ensures
            r.root == root,
            r.prompts == parts.prompts,
            match parts.runtime {
                Some(m) => r.runtime matches Some(x) && refs_resolved(x, root@, m),
                None => r.runtime is None,
            },
            match parts.insight_grants {
                Some(g) => r.insight_grants == g,
                None => views(r.insight_grants.fetcher@) == seq!["*"@] && views(
                    r.insight_grants.charter@,
                ) == seq!["emit_chart"@],
            },
            match parts.ss_chat_grants {
                Some(g) => r.ss_chat_grants == g,
                None => views(r.ss_chat_grants.fetcher@) == ss_fetcher_tools() && views(
                    r.ss_chat_grants.charter@,
                ) == seq!["emit_chart"@],
            },
            r.report_template == parts.report_template,
            r.report_grants == parts.report_grants,
            match parts.rate_limit {
                Some(l) => r.rate_limit == l,
                None => !r.rate_limit.enabled && r.rate_limit.burst_size == 1
                    && r.rate_limit.refill_period_ms == 1000 && r.rate_limit.per_actor is None,
            },
            r.identity == parts.identity,
            r.authz == parts.authz,
    {
        let runtime = match parts.runtime {
            Some(m) => Some(RuntimeRefs::resolve(root.as_str(), m)),
            None => None,
        };
        let insight_grants = match parts.insight_grants {
            Some(g) => g,
            None => InsightGrants::default(),
        };
        let ss_chat_grants = match parts.ss_chat_grants {
            Some(g) => g,
            None => SsChatGrants::default(),
        };
        let rate_limit = match parts.rate_limit {
            Some(l) => l,
            None => RateLimitConfig::default(),
        };
        AppConfig {
            root,
            prompts: parts.prompts,
            runtime,
            insight_grants,
            ss_chat_grants,
            report_template: parts.report_template,
            rate_limit,
            identity: parts.identity,
            authz: parts.authz,
            report_grants: parts.report_grants,
        }
    }
}

} // verus!
