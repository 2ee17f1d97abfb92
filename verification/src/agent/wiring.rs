//! Config-driven tool grants: wildcard expansion, boot-time grant validation against the tools the
//! MCP server advertised, and the per-turn instruction text the fetcher stage receives.

use vstd::prelude::*;

use crate::agent::config::PipelineId;
use crate::search::{first_where, is_first, lemma_first_where_none, lemma_first_where_some};
use crate::text::{all_ws, concat2, is_blank, push_str, str_eq, to_owned_string};

verus! {

/// The grant sentinel that expands to every tool the MCP server advertised.
pub open spec fn wildcard() -> Seq<char> {
    "*"@
}

/// The names one grant entry stands for: the advertised set for the wildcard, else itself.
pub open spec fn entry_names(name: Seq<char>, advertised: Seq<Seq<char>>) -> Seq<Seq<char>> {
    if name == wildcard() {
        advertised
    } else {
        seq![name]
    }
}

/// Every name a grant stands for, in order, duplicates included.
pub open spec fn grant_names(grant: Seq<Seq<char>>, advertised: Seq<Seq<char>>) -> Seq<Seq<char>>
    decreases grant.len(),
{
    if grant.len() == 0 {
        Seq::empty()
    } else {
        grant_names(grant.drop_last(), advertised) + entry_names(grant.last(), advertised)
    }
}

/// `s` with every repeated element dropped, keeping first occurrences in order.
pub open spec fn dedup_first(s: Seq<Seq<char>>) -> Seq<Seq<char>>
    decreases s.len(),
{
    if s.len() == 0 {
        Seq::empty()
    } else {
        let d = dedup_first(s.drop_last());
        if d.contains(s.last()) {
            d
        } else {
            d.push(s.last())
        }
    }
}

/// The views of a list of strings.
pub open spec fn views(v: Seq<String>) -> Seq<Seq<char>> {
    v.map_values(|s: String| s@)
}

/// Whether `v` holds a string equal to `name`.
fn holds(v: &[String], name: &str) -> (r: bool)
    ensures
        r == views(v@).contains(name@),
{
    let mut i: usize = 0;
    while i < v.len()
        invariant
            i <= v.len(),
            forall|j: int| 0 <= j < i ==> (#[trigger] v@[j])@ != name@,
        decreases v.len() - i,
    {
        if str_eq(v[i].as_str(), name) {
            assert(views(v@)[i as int] == name@);
            return true;
        }
        i += 1;
    }
    proof {
        if views(v@).contains(name@) {
            let k = choose|k: int| 0 <= k < views(v@).len() && views(v@)[k] == name@;
            assert(v@[k]@ == name@);
        }
    }
    false
}

/// Appends `name` to `out` unless it is already there, keeping `out` the first-seen
/// de-duplication of what was fed so far.
fn push_new(out: &mut Vec<String>, name: &String, Ghost(fed): Ghost<Seq<Seq<char>>>)
    requires
        views(old(out)@) == dedup_first(fed),
    ensures
        views(final(out)@) == dedup_first(fed.push(name@)),
{
    proof {
        assert(fed.push(name@).drop_last() =~= fed);
    }
    if !holds(out.as_slice(), name.as_str()) {
        out.push(name.clone());
        assert(views(out@) =~= views(old(out)@).push(name@));
    }
}

/// Expands the `"*"` wildcard into every advertised tool name, passing other names through,
/// de-duplicated in first-seen order.
pub fn expand_grant(grant: &[String], advertised: &[String]) -> (r: Vec<String>)
    ensures
        views(r@) == dedup_first(grant_names(views(grant@), views(advertised@))),
{
    let ghost adv = views(advertised@);
    let mut out: Vec<String> = Vec::new();
    let ghost mut fed: Seq<Seq<char>> = Seq::empty();
    assert(views(out@) =~= dedup_first(fed));
    let mut i: usize = 0;
    while i < grant.len()
        invariant
            i <= grant.len(),
            adv == views(advertised@),
            fed == grant_names(views(grant@).take(i as int), adv),
            views(out@) == dedup_first(fed),
        decreases grant.len() - i,
    {
        proof {
            assert(views(grant@).take(i as int + 1).drop_last() =~= views(grant@).take(i as int));
            assert(views(grant@).take(i as int + 1).last() == grant@[i as int]@);
        }
        if str_eq(grant[i].as_str(), "*") {
            let ghost base = fed;
            let mut k: usize = 0;
            while k < advertised.len()
                invariant
                    k <= advertised.len(),
                    adv == views(advertised@),
                    fed == base + adv.take(k as int),
                    views(out@) == dedup_first(fed),
                decreases advertised.len() - k,
            {
                push_new(&mut out, &advertised[k], Ghost(fed));
                proof {
                    assert(base + adv.take(k as int + 1) =~= fed.push(advertised@[k as int]@));
                    fed = fed.push(advertised@[k as int]@);
                }
                k += 1;
            }
            proof {
                assert(adv.take(advertised.len() as int) =~= adv);
            }
        } else {
            push_new(&mut out, &grant[i], Ghost(fed));
            proof {
                fed = fed.push(grant@[i as int]@);
            }
        }
        proof {
            assert(fed =~= grant_names(views(grant@).take(i as int + 1), adv));
        }
        i += 1;
    }
    assert(views(grant@).take(grant.len() as int) =~= views(grant@));
    out
}

/// `s` holds no element twice.
pub open spec fn no_repeats(s: Seq<Seq<char>>) -> bool {
    forall|a: int, b: int| 0 <= a < b < s.len() ==> s[a] != s[b]
}

/// First-seen de-duplication keeps exactly the elements of its input, each once.
pub proof fn lemma_dedup_first(s: Seq<Seq<char>>)
    ensures
        no_repeats(dedup_first(s)),
        forall|x: Seq<char>| #[trigger] dedup_first(s).contains(x) <==> s.contains(x),
    decreases s.len(),
{
    if s.len() > 0 {
        let d = dedup_first(s.drop_last());
        lemma_dedup_first(s.drop_last());
        assert forall|x: Seq<char>| s.contains(x) <==> (s.drop_last().contains(x) || x == s.last()) by {
            if s.contains(x) {
                let k = choose|k: int| 0 <= k < s.len() && s[k] == x;
                if k < s.len() - 1 {
                    assert(s.drop_last()[k] == x);
                }
            }
            if s.drop_last().contains(x) {
                let k = choose|k: int| 0 <= k < s.drop_last().len() && s.drop_last()[k] == x;
                assert(s[k] == x);
            }
            if x == s.last() {
                assert(s[s.len() - 1] == x);
            }
        }
        if !d.contains(s.last()) {
            let e = d.push(s.last());
            assert forall|x: Seq<char>| e.contains(x) <==> (d.contains(x) || x == s.last()) by {
                if e.contains(x) {
                    let k = choose|k: int| 0 <= k < e.len() && e[k] == x;
                    if k < d.len() {
                        assert(d[k] == x);
                    }
                }
                if d.contains(x) {
                    let k = choose|k: int| 0 <= k < d.len() && d[k] == x;
                    assert(e[k] == x);
                }
                if x == s.last() {
                    assert(e[d.len() as int] == x);
                }
            }
            assert forall|a: int, b: int| 0 <= a < b < e.len() implies e[a] != e[b] by {
                if b == d.len() {
                    assert(d[a] == e[a]);
                }
            }
        }
    }
}

/// Expanding a grant yields every tool the grant stands for — the wildcard's advertised set or
/// the name itself — and nothing else, each exactly once.
pub proof fn law_expand_grant_covers_each_name_once(grant: Seq<Seq<char>>, advertised: Seq<Seq<char>>)
    ensures
        no_repeats(dedup_first(grant_names(grant, advertised))),
        forall|x: Seq<char>|
            #[trigger] dedup_first(grant_names(grant, advertised)).contains(x) <==> grant_names(
                grant,
                advertised,
            ).contains(x),
{
    lemma_dedup_first(grant_names(grant, advertised));
}

/// The built-in code-backed tools a grant may name.
pub open spec fn is_code_tool(name: Seq<char>) -> bool {
    name == "emit_chart"@ || name == "emit_report"@
}

/// Whether `name` names a built-in code-backed tool.
pub fn code_tool(name: &str) -> (r: bool)
    ensures
        r == is_code_tool(name@),
{
    str_eq(name, "emit_chart") || str_eq(name, "emit_report")
}

/// A grant entry resolves to a real tool: the wildcard, a built-in, or an advertised tool.
pub open spec fn grant_entry_known(name: Seq<char>, advertised: Seq<Seq<char>>) -> bool {
    name == wildcard() || is_code_tool(name) || advertised.contains(name)
}

/// Grant entry `i` does not resolve.
pub open spec fn unknown_entry_at(grant: Seq<Seq<char>>, advertised: Seq<Seq<char>>) -> spec_fn(
    int,
) -> bool {
    |i: int| !grant_entry_known(grant[i], advertised)
}

/// The rejection of an unresolvable grant entry.
pub open spec fn err_unknown_grant(pipeline: Seq<char>, stage: Seq<char>, name: Seq<char>) -> Seq<
    char,
> {
    pipeline + " `"@ + stage + "` grant names tool `"@ + name
        + "`, which the MCP server did not advertise and is not a built-in tool"@
}

/// The first unresolvable entry of a stage's grant, as its rejection.
pub open spec fn grant_check(
    pipeline: Seq<char>,
    stage: Seq<char>,
    grant: Seq<Seq<char>>,
    advertised: Seq<Seq<char>>,
) -> Option<Seq<char>> {
    match first_where(grant.len() as int, unknown_entry_at(grant, advertised)) {
        Some(i) => Some(err_unknown_grant(pipeline, stage, grant[i])),
        None => None,
    }
}

/// Checks that every name in one stage's grant resolves to a real tool.
pub fn validate_grant(pipeline: &str, stage: &str, grant: &[String], advertised: &[String]) -> (r:
    Result<(), String>)
    ensures
        r is Ok <==> grant_check(pipeline@, stage@, views(grant@), views(advertised@)) is None,
        r matches Err(e) ==> grant_check(pipeline@, stage@, views(grant@), views(advertised@))
            == Some(e@),
{
    let ghost g = views(grant@);
    let ghost adv = views(advertised@);
    let mut i: usize = 0;
    while i < grant.len()
        invariant
            i <= grant.len(),
            g == views(grant@),
            adv == views(advertised@),
            forall|j: int| 0 <= j < i ==> !#[trigger] unknown_entry_at(g, adv)(j),
        decreases grant.len() - i,
    {
        let name = grant[i].as_str();
        let known = str_eq(name, "*") || code_tool(name) || holds(advertised, name);
        if !known {
            proof {
                lemma_first_where_some(g.len() as int, unknown_entry_at(g, adv), i as int);
            }
            let mut e = concat2(pipeline, " `");
            push_str(&mut e, stage);
            push_str(&mut e, "` grant names tool `");
            push_str(&mut e, name);
            push_str(
                &mut e,
                "`, which the MCP server did not advertise and is not a built-in tool",
            );
            assert(e@ =~= err_unknown_grant(pipeline@, stage@, g[i as int]));
            return Err(e);
        }
        i += 1;
    }
    proof {
        lemma_first_where_none(g.len() as int, unknown_entry_at(g, adv));
    }
    Ok(())
}

/// Validates one chat pipeline's two stage grants (fetcher first), naming `pipeline` in any error.
pub fn validate_pipeline_grants(
    pipeline: &str,
    advertised: &[String],
    fetcher_grant: &[String],
    charter_grant: &[String],
) -> (r: Result<(), String>)
    ensures
        ({
            let f = grant_check(pipeline@, "fetcher"@, views(fetcher_grant@), views(advertised@));
            let c = grant_check(pipeline@, "charter"@, views(charter_grant@), views(advertised@));
            &&& r is Ok <==> (f is None && c is None)
            &&& r matches Err(e) ==> (if f is Some {
                f == Some(e@)
            } else {
                c == Some(e@)
            })
        }),
{
    validate_grant(pipeline, "fetcher", fetcher_grant, advertised)?;
    validate_grant(pipeline, "charter", charter_grant, advertised)?;
    Ok(())
}

/// Validates the `/insight` tool grants against the advertised set, failing fast at boot.
pub fn validate_insight_grants(
    advertised: &[String],
    fetcher_grant: &[String],
    charter_grant: &[String],
) -> (r: Result<(), String>)
    ensures
        ({
            let f = grant_check("insight"@, "fetcher"@, views(fetcher_grant@), views(advertised@));
            let c = grant_check("insight"@, "charter"@, views(charter_grant@), views(advertised@));
            &&& r is Ok <==> (f is None && c is None)
            &&& r matches Err(e) ==> (if f is Some {
                f == Some(e@)
            } else {
                c == Some(e@)
            })
        }),
{
    validate_pipeline_grants("insight", advertised, fetcher_grant, charter_grant)
}

/// The rejection of an empty ss-chat fetcher grant.
pub open spec fn err_ss_empty() -> Seq<char> {
    "config_error: [ss_chat.grants].fetcher must not be empty; an empty grant boots a fetcher with no tools that answers ungrounded — reject it at boot, like the wildcard"@
}

/// The rejection of a wildcard in the ss-chat fetcher grant.
pub open spec fn err_ss_wildcard() -> Seq<char> {
    "config_error: [ss_chat.grants].fetcher must list tools explicitly; the `*` wildcard is not valid for the ss-chat pipeline"@
}

/// Validates the `/ss-chat` grants: the fetcher grant must be a non-empty explicit list (no
/// wildcard), then both stages must resolve as for any chat pipeline.
pub fn validate_ss_chat_grants(
    advertised: &[String],
    fetcher_grant: &[String],
    charter_grant: &[String],
) -> (r: Result<(), String>)
    ensures
        fetcher_grant@.len() == 0 ==> (r matches Err(e) && e@ == err_ss_empty()),
        fetcher_grant@.len() > 0 && views(fetcher_grant@).contains(wildcard()) ==> (r matches Err(
            e,
        ) && e@ == err_ss_wildcard()),
        fetcher_grant@.len() > 0 && !views(fetcher_grant@).contains(wildcard()) ==> ({
            let f = grant_check("ss-chat"@, "fetcher"@, views(fetcher_grant@), views(advertised@));
            let c = grant_check("ss-chat"@, "charter"@, views(charter_grant@), views(advertised@));
            &&& r is Ok <==> (f is None && c is None)
            &&& r matches Err(e) ==> (if f is Some {
                f == Some(e@)
            } else {
                c == Some(e@)
            })
        }),
{
    if fetcher_grant.len() == 0 {
        return Err(to_owned_string(
            "config_error: [ss_chat.grants].fetcher must not be empty; an empty grant boots a fetcher with no tools that answers ungrounded — reject it at boot, like the wildcard",
        ));
    }
    if holds(fetcher_grant, "*") {
        return Err(to_owned_string(
            "config_error: [ss_chat.grants].fetcher must list tools explicitly; the `*` wildcard is not valid for the ss-chat pipeline",
        ));
    }
    validate_pipeline_grants("ss-chat", advertised, fetcher_grant, charter_grant)
}

/// The MCP conventions heading appended to a tool-bearing stage's instruction.
pub open spec fn mcp_heading() -> Seq<char> {
    "\n\n# MCP server conventions (apply to all tools)\n"@
}

/// The instruction with the MCP server's conventions appended, when there are any that are not
/// blank.
pub open spec fn with_mcp(instruction: Seq<char>, mcp: Option<Seq<char>>) -> Seq<char> {
    match mcp {
        Some(m) => if !all_ws(m) {
            instruction + mcp_heading() + m
        } else {
            instruction
        },
        None => instruction,
    }
}

/// Appends the MCP server's conventions to a tool-bearing stage's instruction; unchanged when
/// there are none.
pub fn compose_with_mcp(instruction: &str, mcp_instructions: Option<&str>) -> (r: String)
    ensures
        r@ == with_mcp(instruction@, match mcp_instructions {
            Some(m) => Some(m@),
            None => None,
        }),
{
    match mcp_instructions {
        Some(m) => {
            if is_blank(m) {
                to_owned_string(instruction)
            } else {
                let mut s = concat2(
                    instruction,
                    "\n\n# MCP server conventions (apply to all tools)\n",
                );
                push_str(&mut s, m);
                s
            }
        },
        None => to_owned_string(instruction),
    }
}

/// The names of a grant, each in backticks, separated by `, `.
pub open spec fn backticked(names: Seq<Seq<char>>) -> Seq<char>
    decreases names.len(),
{
    if names.len() == 0 {
        Seq::empty()
    } else if names.len() == 1 {
        "`"@ + names[0] + "`"@
    } else {
        backticked(names.drop_last()) + ", "@ + "`"@ + names.last() + "`"@
    }
}

/// The per-turn grant sentence for a resolved tool list.
pub open spec fn grant_sentence(names: Seq<Seq<char>>) -> Seq<char> {
    if names.len() == 0 {
        "No data tools are granted for this turn. Do not make a tool call."@
    } else {
        "For this turn you may call only these granted data tools: "@ + backticked(names)
            + ". For a report request, call every listed tool that is relevant to the requested date range; never call a tool that is not listed."@
    }
}

/// The fetcher's instruction for one turn: the authored text, the concrete grant, then the MCP
/// conventions.
pub open spec fn fetcher_instruction(
    instruction: Seq<char>,
    grant: Seq<Seq<char>>,
    advertised: Seq<Seq<char>>,
    mcp: Option<Seq<char>>,
) -> Seq<char> {
    with_mcp(
        instruction + "\n\n## Per-turn tool grant\n"@ + grant_sentence(
            dedup_first(grant_names(grant, advertised)),
        ),
        mcp,
    )
}

/// Renders a tool list as backticked names separated by `, `.
fn backticked_text(names: &Vec<String>) -> (r: String)
    ensures
        r@ == backticked(views(names@)),
{
    let mut out = String::new();
    let mut i: usize = 0;
    while i < names.len()
        invariant
            i <= names.len(),
            out@ == backticked(views(names@).take(i as int)),
        decreases names.len() - i,
    {
        proof {
            let t = views(names@).take(i as int + 1);
            assert(t.drop_last() =~= views(names@).take(i as int));
            assert(t.last() == names@[i as int]@);
        }
        if i > 0 {
            push_str(&mut out, ", ");
        }
        push_str(&mut out, "`");
        push_str(&mut out, names[i].as_str());
        push_str(&mut out, "`");
        proof {
            let t = views(names@).take(i as int + 1);
            if i == 0 {
                assert(out@ =~= backticked(t));
            } else {
                assert(out@ =~= backticked(t));
            }
        }
        i += 1;
    }
    assert(views(names@).take(names.len() as int) =~= views(names@));
    out
}

/// Appends the concrete per-turn data-tool grant (the wildcard resolved against the advertised
/// tools) to the fetcher's instruction, then the MCP conventions.
pub fn compose_fetcher_instruction(
    instruction: &str,
    grant: &[String],
    advertised: &[String],
    mcp_instructions: Option<&str>,
) -> (r: String)
    ensures
        r@ == fetcher_instruction(
            instruction@,
            views(grant@),
            views(advertised@),
            match mcp_instructions {
                Some(m) => Some(m@),
                None => None,
            },
        ),
{
    let granted = expand_grant(grant, advertised);
    let grant_text = if granted.len() == 0 {
        to_owned_string("No data tools are granted for this turn. Do not make a tool call.")
    } else {
        let list = backticked_text(&granted);
        let mut s = concat2(
            "For this turn you may call only these granted data tools: ",
            list.as_str(),
        );
        push_str(
            &mut s,
            ". For a report request, call every listed tool that is relevant to the requested date range; never call a tool that is not listed.",
        );
        s
    };
    let mut head = concat2(instruction, "\n\n## Per-turn tool grant\n");
    push_str(&mut head, grant_text.as_str());
    compose_with_mcp(head.as_str(), mcp_instructions)
}

/// The pipeline id the greeting pipeline is registered under.
pub fn greeting_pipeline_id() -> (r: PipelineId)
    ensures
        r.0@ == "greeting"@,
{
    PipelineId(to_owned_string("greeting"))
}

} // verus!
