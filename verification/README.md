# datacenter_agent

The verified core of an analytics agent that answers questions about a datacenter by running an
LLM against live data served over MCP.

- `src/` is the library, verified with Verus: input normalization and guardrails, intent and slot
  classification, the answer policy, session memory, audit records, the monthly budget ledger's
  decisions, the eval runner's scoring, the sub-agent payload contract, the tool-use loop, the
  stage plans of each pipeline, and the streaming protocol's state machines. Each public function
  states its result in its `ensures`; the `law_*` proof functions state properties that span
  several calls.
- Calls into outside crates (regex, unicode-normalization, sha2, chrono) sit behind small trusted
  wrappers whose contracts name what the crate computes.
- `tests/` exercises the library on concrete values.
- `app/` is the eval command line: it parses flags, reads the config, pack, fixture and baseline
  files, and hands their contents to the library.
