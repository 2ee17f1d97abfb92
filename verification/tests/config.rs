use datacenter_agent::appstate::{runtime_enabled_from_env, runtime_refs_for_flag, PromptBank};
use datacenter_agent::config::{
    check_config_version, check_prompt_body, check_template_body, default_report_template,
    AppConfig, AuthzConfig, InsightGrants, ManifestParts, RateLimitConfig, ReportGrants,
    RuntimeManifest, RuntimeRefs, SsChatGrants,
};

/// The six `ss_*` investor-platform tools.
const SS_FETCHER_TOOLS: [&str; 6] = [
    "ss_sunshine_hours",
    "ss_energy_storage",
    "ss_power_wheeling",
    "ss_power_pipeline",
    "ss_btm_projects",
    "ss_ftm_projects",
];

#[test]
fn runtime_enabled_env_defaults_on_with_explicit_rollback() {
    for value in [
        None,
        Some(""),
        Some("true"),
        Some("TRUE"),
        Some("1"),
        Some("TRUE "),
    ] {
        assert!(runtime_enabled_from_env(value));
    }
    for value in [Some("false"), Some("FALSE"), Some(" false "), Some("0")] {
        assert!(!runtime_enabled_from_env(value));
    }
}

#[test]
fn insight_grants_default_to_wildcard_when_section_absent() {
    assert_eq!(InsightGrants::default().fetcher, ["*"]);
    assert_eq!(InsightGrants::default().charter, ["emit_chart"]);
}

#[test]
fn ss_chat_grants_default_to_the_six_ss_tools_when_section_absent() {
    assert_eq!(SsChatGrants::default().fetcher, SS_FETCHER_TOOLS);
    assert_eq!(SsChatGrants::default().charter, ["emit_chart"]);
}

const ADVERTISED: [&str; 6] = [
    "bill_revenue",
    "station_revenue_ranking",
    "bill_charge",
    "business_metrics",
    "member_analysis",
    "bill_member_analysis",
];

fn owned(items: &[&str]) -> Vec<String> {
    items.iter().map(|s| s.to_string()).collect()
}

/// Mapping tables that cover the runtime allowlist with advertised tools only; `revenue`
/// requires `revenue_tools`.
fn authz_fixture(revenue_tools: &[&str]) -> AuthzConfig {
    AuthzConfig {
        permission_tools: vec![
            ("finance".to_string(), owned(&["bill_revenue", "station_revenue_ranking"])),
            ("member".to_string(), owned(&["member_analysis", "bill_member_analysis"])),
            ("engproj".to_string(), Vec::new()),
        ],
        intent_tools: vec![
            ("unknown".to_string(), Vec::new()),
            ("revenue".to_string(), owned(revenue_tools)),
            ("charging".to_string(), owned(&["bill_charge"])),
            ("member".to_string(), owned(&["member_analysis", "bill_member_analysis"])),
            ("site-build".to_string(), owned(&["business_metrics"])),
            ("report".to_string(), owned(&ADVERTISED)),
        ],
        ss_chat_permissions: owned(&["ssinvest"]),
    }
}

fn shipped_allowlist() -> Vec<String> {
    owned(&["unknown", "revenue", "charging", "member", "site-build", "report"])
}

#[test]
fn authz_validation_rejects_an_uncovered_intent_at_boot() {
    let authz = authz_fixture(&["bill_revenue", "station_revenue_ranking"]);
    let advertised = owned(&ADVERTISED);

    let allowlist = shipped_allowlist();
    authz
        .validate(&allowlist, &advertised)
        .expect("the tables must cover the allowlist");

    let mut extended = allowlist.clone();
    extended.push("forecast".to_string());
    let err = authz
        .validate(&extended, &advertised)
        .expect_err("an uncovered intent must fail startup");
    assert!(
        err.to_string().contains("forecast"),
        "the error must name the uncovered intent, got: {err}"
    );
}

#[test]
fn authz_validation_rejects_a_tool_the_server_never_advertises() {
    let authz = authz_fixture(&["bil_revenue"]);
    let advertised = owned(&ADVERTISED);

    let err = authz
        .validate(&shipped_allowlist(), &advertised)
        .expect_err("an unadvertised tool must fail startup");
    assert!(
        err.to_string().contains("bil_revenue"),
        "the error must name the offending tool, got: {err}"
    );
}

#[test]
fn authz_validation_checks_the_permission_table_too() {
    let mut authz = authz_fixture(&["bill_revenue"]);
    authz
        .permission_tools
        .push(("ops".to_string(), owned(&["shell_exec"])));
    let err = authz
        .validate(&shipped_allowlist(), &owned(&ADVERTISED))
        .expect_err("an unadvertised permission tool must fail startup");
    assert!(err.contains("shell_exec"), "got: {err}");
}

#[test]
fn report_grant_validation_rejects_an_unadvertised_tool() {
    let advertised = owned(&ADVERTISED);

    let good = ReportGrants {
        fetcher: owned(&ADVERTISED),
    };
    good.validate(&advertised)
        .expect("a report grant naming only advertised tools passes");

    let bad = ReportGrants {
        fetcher: vec!["nope".to_string()],
    };
    let err = bad
        .validate(&advertised)
        .expect_err("an unadvertised tool must fail startup");
    assert!(err.to_string().contains("nope"), "got: {err}");
}

fn refs(intents: &str) -> RuntimeRefs {
    RuntimeRefs {
        intents: intents.into(),
        lexicon: "config/runtime/lexicon.toml".into(),
        thresholds: "config/runtime/thresholds.toml".into(),
        injection: "config/runtime/injection.toml".into(),
        input_stages: vec!["normalize".into()],
        answer_policy_backend: "rule".into(),
        llm_normalizer_enabled: false,
        llm_normalizer_backend: "disabled".into(),
        memory_enabled: false,
        memory_backend: "in-memory".into(),
        audit_sink: "tracing".into(),
        audit_failure_policy: "fail_open".into(),
        guardrails: Vec::new(),
        slot_extractors: Vec::new(),
        pipeline_evaluators: Vec::new(),
        response_evaluators: Vec::new(),
        eval_fixtures: "config/runtime/evals/fixtures.json".into(),
        response_baseline: "config/runtime/evals/response-baseline.json".into(),
    }
}

fn app_config(runtime: Option<RuntimeRefs>) -> AppConfig {
    AppConfig {
        root: "config".into(),
        prompts: Vec::new(),
        runtime,
        insight_grants: InsightGrants::default(),
        ss_chat_grants: SsChatGrants::default(),
        report_template: String::new(),
        rate_limit: RateLimitConfig::default(),
        identity: None,
        authz: None,
        report_grants: None,
    }
}

#[test]
fn explicit_rollback_skips_invalid_runtime_config() {
    let app_config = app_config(Some(refs("config/runtime/missing-intents.toml")));
    let result = runtime_refs_for_flag(&app_config, Some("false"));
    assert!(matches!(result, Ok(None)));
}

#[test]
fn default_cutover_requires_runtime_config() {
    let app_config = app_config(None);
    match runtime_refs_for_flag(&app_config, None) {
        Err(err) => assert!(err
            .to_string()
            .contains("runtime enabled but [runtime] config missing")),
        Ok(_) => panic!("default cutover must not silently fall back to legacy"),
    }
}

#[test]
fn enabled_runtime_hands_back_the_configured_refs() {
    let app_config = app_config(Some(refs("config/runtime/intents.toml")));
    let found = runtime_refs_for_flag(&app_config, Some("true"))
        .expect("configured")
        .expect("enabled");
    assert_eq!(found.intents, "config/runtime/intents.toml");
}

#[test]
fn missing_prompt_is_named() {
    let mut cfg = app_config(None);
    cfg.prompts = vec![("agent_system".to_string(), "sys".to_string())];
    let err = PromptBank::from_app_config(&cfg).err().expect("greeting prompts are missing");
    assert_eq!(err, "prompt `greeting_system` missing from app config");
}

#[test]
fn manifest_version_must_be_supported() {
    assert!(check_config_version("config/config.toml", 1).is_ok());
    assert_eq!(
        check_config_version("config/config.toml", 2),
        Err("config/config.toml: unsupported config version 2 (this binary expects 1)".to_string())
    );
}

#[test]
fn blank_prompt_and_template_bodies_are_refused() {
    assert_eq!(
        check_prompt_body("agent_system", "config/prompts/a.md", " \n".into()),
        Err("prompt `agent_system` at config/prompts/a.md is empty — refusing to ship an empty system message".to_string())
    );
    assert_eq!(
        check_prompt_body("agent_system", "a.md", "You are helpful.".into()),
        Ok("You are helpful.".to_string())
    );
    assert!(check_template_body("t.html", "\t".into())
        .unwrap_err()
        .contains("refusing to ship an empty report template"));
    assert_eq!(default_report_template(), "report_template/report.html");
}

fn runtime_manifest() -> RuntimeManifest {
    RuntimeManifest {
        intents: "runtime/intents.toml".into(),
        lexicon: "/etc/pack/lexicon.toml".into(),
        thresholds: "runtime/thresholds.toml".into(),
        injection: "runtime/injection.toml".into(),
        input_stages: vec!["normalize".into()],
        answer_policy_backend: "rule".into(),
        llm_normalizer_enabled: false,
        llm_normalizer_backend: "disabled".into(),
        memory_enabled: true,
        memory_backend: "in-memory".into(),
        audit_sink: "tracing".into(),
        audit_failure_policy: "fail-open".into(),
        guardrails: Vec::new(),
        slot_extractors: Vec::new(),
        pipeline_evaluators: Vec::new(),
        response_evaluators: Vec::new(),
        eval_fixtures: "runtime/evals/fixtures.json".into(),
        eval_baseline: "runtime/evals/response-baseline.json".into(),
    }
}

#[test]
fn config_resolves_runtime_paths_against_the_manifest_directory() {
    let refs = RuntimeRefs::resolve("config", runtime_manifest());
    assert_eq!(refs.intents, "config/runtime/intents.toml");
    assert_eq!(refs.lexicon, "/etc/pack/lexicon.toml");
    assert_eq!(refs.response_baseline, "config/runtime/evals/response-baseline.json");
    assert_eq!(refs.memory_backend, "in-memory");
}

#[test]
fn absent_sections_take_their_defaults() {
    let cfg = AppConfig::from_parts(
        "config".into(),
        ManifestParts {
            prompts: vec![("agent_system".into(), "sys".into())],
            runtime: Some(runtime_manifest()),
            insight_grants: None,
            ss_chat_grants: None,
            report_template: "<html>__REPORT_DATA_JSON__</html>".into(),
            report_grants: None,
            rate_limit: None,
            identity: None,
            authz: None,
        },
    );
    assert_eq!(cfg.insight_grants.fetcher, ["*"]);
    assert_eq!(cfg.ss_chat_grants.fetcher, SS_FETCHER_TOOLS);
    assert!(!cfg.rate_limit.enabled);
    assert_eq!(
        cfg.runtime.as_ref().map(|r| r.thresholds.as_str()),
        Some("config/runtime/thresholds.toml")
    );
    assert_eq!(cfg.get_prompt_by_id("agent_system"), Ok("sys"));
}
