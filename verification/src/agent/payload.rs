//! The payload contract: the turn records, the payload variant tags, the open producer-namespaced
//! artifact key and the shared agent error.

use vstd::prelude::*;

use crate::search::{first_where, lemma_first_where_none, lemma_first_where_some};
use crate::text::{chars_vec, concat2, debug_quoted, push_str, quote_debug, string_from_range,
    str_eq, to_owned_string};

verus! {

/// One user/assistant turn carried as prior history.
#[derive(Clone, Debug, PartialEq, Eq)]
pub struct Exchange {
    pub user: String,
    pub assistant: String,
}

/// A cheap tag for a payload's variant.
#[derive(Clone, Copy, PartialEq, Eq, Debug)]
pub enum PayloadKind {
    Initial,
    Intermediate,
    Final,
}

/// The debug name of a payload kind.
pub open spec fn kind_name(k: PayloadKind) -> Seq<char> {
    match k {
        PayloadKind::Initial => "Initial"@,
        PayloadKind::Intermediate => "Intermediate"@,
        PayloadKind::Final => "Final"@,
    }
}

impl PayloadKind {
    /// The variant's name, as `{:?}` prints it.
    pub fn name(&self) -> (r: &'static str)
        ensures
            r@ == kind_name(*self),
    {
        match self {
            PayloadKind::Initial => "Initial",
            PayloadKind::Intermediate => "Intermediate",
            PayloadKind::Final => "Final",
        }
    }
}

/// The names of `ks` separated by `, `.
pub open spec fn kinds_joined(ks: Seq<PayloadKind>) -> Seq<char>
    decreases ks.len(),
{
    if ks.len() == 0 {
        Seq::empty()
    } else if ks.len() == 1 {
        kind_name(ks[0])
    } else {
        kinds_joined(ks.drop_last()) + ", "@ + kind_name(ks.last())
    }
}

/// A list of kinds as `{:?}` prints it: `[Initial, Final]`.
pub open spec fn kinds_debug(ks: Seq<PayloadKind>) -> Seq<char> {
    "["@ + kinds_joined(ks) + "]"@
}

/// Renders a list of kinds as `{:?}` does.
pub fn kinds_text(ks: &Vec<PayloadKind>) -> (r: String)
    ensures
        r@ == kinds_debug(ks@),
{
    let mut out = to_owned_string("[");
    let mut i: usize = 0;
    while i < ks.len()
        invariant
            i <= ks.len(),
            out@ == "["@ + kinds_joined(ks@.take(i as int)),
        decreases ks.len() - i,
    {
        let ghost before = out@;
        if i > 0 {
            push_str(&mut out, ", ");
        }
        push_str(&mut out, ks[i].name());
        proof {
            let t = ks@.take(i as int + 1);
            assert(t.drop_last() =~= ks@.take(i as int));
            assert(t.last() == ks@[i as int]);
            if i == 0 {
                assert(ks@.take(0) =~= Seq::<PayloadKind>::empty());
                assert(out@ =~= "["@ + kinds_joined(t));
            } else {
                assert(out@ =~= "["@ + kinds_joined(t));
            }
        }
        i += 1;
    }
    assert(ks@.take(ks.len() as int) =~= ks@);
    push_str(&mut out, "]");
    out
}

/// An open, producer-namespaced artifact key `{agent}.{name}`.
#[derive(PartialEq, Eq, PartialOrd, Ord, Hash, Debug)]
pub struct ArtifactKey {
    agent: String,
    name: String,
}

impl Clone for ArtifactKey {
    /// The same key.
    fn clone(&self) -> (r: Self)
        ensures
            r == *self,
    {
        ArtifactKey { agent: self.agent.clone(), name: self.name.clone() }
    }
}

/// `i` is the position of the first `.` in `s`.
pub open spec fn is_first_dot(s: Seq<char>, i: int) -> bool {
    &&& 0 <= i < s.len()
    &&& s[i] == '.'
    &&& forall|j: int| 0 <= j < i ==> s[j] != '.'
}

/// The `(agent, name)` halves of a dotted key, split on the first dot; `None` when there is no
/// dot or either half is empty.
pub open spec fn key_parts(s: Seq<char>) -> Option<(Seq<char>, Seq<char>)> {
    if exists|i: int| is_first_dot(s, i) {
        let i = choose|i: int| is_first_dot(s, i);
        if i > 0 && i + 1 < s.len() {
            Some((s.take(i), s.skip(i + 1)))
        } else {
            None
        }
    } else {
        None
    }
}

/// The canonical dotted form of a key.
pub open spec fn dotted(agent: Seq<char>, name: Seq<char>) -> Seq<char> {
    agent + seq!['.'] + name
}

/// The first dot of a string is unique.
proof fn lemma_first_dot_unique(s: Seq<char>, i: int, j: int)
    requires
        is_first_dot(s, i),
        is_first_dot(s, j),
    ensures
        i == j,
{
    if i < j {
        assert(s[i] != '.');
    } else if j < i {
        assert(s[j] != '.');
    }
}

impl ArtifactKey {
    /// The producer namespace.
    pub closed spec fn agent_part(self) -> Seq<char> {
        self.agent@
    }

    /// The slot name.
    pub closed spec fn name_part(self) -> Seq<char> {
        self.name@
    }

    /// Builds a key `{agent}.{name}` from an arbitrary producer and slot.
    pub fn new(agent: &str, name: &str) -> (r: Self)
        ensures
            r.agent_part() == agent@,
            r.name_part() == name@,
    {
        ArtifactKey { agent: to_owned_string(agent), name: to_owned_string(name) }
    }

    /// The artifact holding an agent's own message, keyed `{agent}.message`.
    pub fn message(agent: &str) -> (r: Self)
        ensures
            r.agent_part() == agent@,
            r.name_part() == "message"@,
    {
        Self::new(agent, "message")
    }

    /// The fetcher's data records (`fetcher.records`).
    pub fn fetcher_records() -> (r: Self)
        ensures
            r.agent_part() == "fetcher"@,
            r.name_part() == "records"@,
    {
        Self::new("fetcher", "records")
    }

    /// The fetcher's schema (`fetcher.schema`).
    pub fn fetcher_schema() -> (r: Self)
        ensures
            r.agent_part() == "fetcher"@,
            r.name_part() == "schema"@,
    {
        Self::new("fetcher", "schema")
    }

    /// The charter's validated chart batch (`charts.spec`).
    pub fn charts_spec() -> (r: Self)
        ensures
            r.agent_part() == "charts"@,
            r.name_part() == "spec"@,
    {
        Self::new("charts", "spec")
    }

    /// The composer's validated report payload (`report.data`).
    pub fn report_data() -> (r: Self)
        ensures
            r.agent_part() == "report"@,
            r.name_part() == "data"@,
    {
        Self::new("report", "data")
    }

    /// The producer namespace (the `agent` half).
    pub fn agent(&self) -> (r: &str)
        ensures
            r@ == self.agent_part(),
    {
        self.agent.as_str()
    }

    /// The slot name (the `name` half).
    pub fn name(&self) -> (r: &str)
        ensures
            r@ == self.name_part(),
    {
        self.name.as_str()
    }

    /// The canonical dotted string `{agent}.{name}`, the key's log and wire form.
    pub fn to_dotted(&self) -> (r: String)
        ensures
            r@ == dotted(self.agent_part(), self.name_part()),
    {
        let mut s = to_owned_string(self.agent.as_str());
        s.push('.');
        push_str(&mut s, self.name.as_str());
        s
    }

    /// Parses `agent.name`, splitting on the first dot; both halves must be non-empty.
    pub fn parse(s: &str) -> (r: Result<ArtifactKey, String>)
        ensures
            match r {
                Ok(k) => key_parts(s@) == Some((k.agent_part(), k.name_part())),
                Err(e) => key_parts(s@) is None
                    && e@ == "artifact key must be `agent.name`, got: "@ + debug_quoted(s@),
            },
    {
        let cs = chars_vec(s);
        let mut i: usize = 0;
        while i < cs.len()
            invariant
                cs@ == s@,
                i <= cs.len(),
                forall|j: int| 0 <= j < i ==> cs@[j] != '.',
            ensures
                i <= cs.len(),
                forall|j: int| 0 <= j < i ==> cs@[j] != '.',
                i < cs.len() ==> cs@[i as int] == '.',
            decreases cs.len() - i,
        {
            if cs[i] == '.' {
                break;
            }
            i += 1;
        }
        proof {
            if i < cs.len() {
                assert(is_first_dot(s@, i as int));
                let c = choose|c: int| is_first_dot(s@, c);
                lemma_first_dot_unique(s@, i as int, c);
            } else {
                assert forall|c: int| !is_first_dot(s@, c) by {
                    if is_first_dot(s@, c) {
                        assert(cs@[c] != '.');
                    }
                }
            }
        }
        if i < cs.len() && i > 0 && i + 1 < cs.len() {
            let agent = string_from_range(&cs, 0, i);
            let name = string_from_range(&cs, i + 1, cs.len());
            proof {
                assert(agent@ =~= s@.take(i as int));
                assert(name@ =~= s@.skip(i as int + 1));
            }
            Ok(ArtifactKey { agent, name })
        } else {
            let q = quote_debug(s);
            Err(concat2("artifact key must be `agent.name`, got: ", q.as_str()))
        }
    }
}

impl std::str::FromStr for ArtifactKey {
    type Err = String;

    /// Parses `agent.name` as [`ArtifactKey::parse`] does.
    fn from_str(s: &str) -> (r: Result<Self, Self::Err>)
        ensures
            match r {
                Ok(k) => key_parts(s@) == Some((k.agent_part(), k.name_part())),
                Err(e) => key_parts(s@) is None
                    && e@ == "artifact key must be `agent.name`, got: "@ + debug_quoted(s@),
            },
    {
        ArtifactKey::parse(s)
    }
}

/// A key whose producer namespace holds no dot, and whose halves are both non-empty, parses back
/// from its dotted form to the same halves.
pub proof fn lemma_artifact_key_round_trip(agent: Seq<char>, name: Seq<char>)
    requires
        agent.len() > 0,
        name.len() > 0,
        forall|j: int| 0 <= j < agent.len() ==> agent[j] != '.',
    ensures
        key_parts(dotted(agent, name)) == Some((agent, name)),
{
    let s = dotted(agent, name);
    let i = agent.len() as int;
    assert(s[i] == '.');
    assert forall|j: int| 0 <= j < i implies s[j] != '.' by {
        assert(s[j] == agent[j]);
    }
    assert(is_first_dot(s, i));
    let c = choose|c: int| is_first_dot(s, c);
    lemma_first_dot_unique(s, i, c);
    assert(s.take(i) =~= agent);
    assert(s.skip(i + 1) =~= name);
}

/// Whatever parses is printed back exactly: the dotted form of the parsed halves is the input.
pub proof fn lemma_artifact_key_parse_print(s: Seq<char>)
    requires
        key_parts(s) is Some,
    ensures
        key_parts(s) matches Some((agent, name)) && dotted(agent, name) == s,
{
    let i = choose|i: int| is_first_dot(s, i);
    assert(dotted(s.take(i), s.skip(i + 1)) =~= s);
}

/// The shared error every agent fails into.
#[derive(Debug)]
pub enum AgentError {
    /// The stage was handed a payload variant it does not accept.
    Mismatch { expected: Vec<PayloadKind>, got: PayloadKind },
    /// A required artifact is absent.
    MissingArtifact(ArtifactKey),
    /// The LLM tried to call a tool this agent does not expose.
    UnknownTool(String),
    /// An underlying capability failed.
    Capability(String),
}

/// The human-readable text of an agent error.
pub open spec fn agent_error_text(e: AgentError) -> Seq<char> {
    match e {
        AgentError::Mismatch { expected, got } => "payload mismatch: expected one of "@
            + kinds_debug(expected@) + ", got "@ + kind_name(got),
        AgentError::MissingArtifact(k) => "missing artifact: "@ + dotted(
            k.agent_part(),
            k.name_part(),
        ),
        AgentError::UnknownTool(n) => "agent does not expose tool: "@ + n@,
        AgentError::Capability(m) => "capability error: "@ + m@,
    }
}

impl AgentError {
    /// The error's message.
    pub fn message(&self) -> (r: String)
        ensures
            r@ == agent_error_text(*self),
    {
        match self {
            AgentError::Mismatch { expected, got } => {
                let list = kinds_text(expected);
                let mut s = concat2("payload mismatch: expected one of ", list.as_str());
                push_str(&mut s, ", got ");
                push_str(&mut s, got.name());
                s
            },
            AgentError::MissingArtifact(k) => {
                let d = k.to_dotted();
                concat2("missing artifact: ", d.as_str())
            },
            AgentError::UnknownTool(n) => concat2("agent does not expose tool: ", n.as_str()),
            AgentError::Capability(m) => concat2("capability error: ", m.as_str()),
        }
    }
}


/// The most model turns an agent's tool-use loop runs before failing.
pub const MAX_STEPS: usize = 8;

/// The failure of a tool-use loop that ran out of turns.
pub fn steps_exhausted() -> (r: AgentError)
    ensures
        r matches AgentError::Capability(m) && m@ == "tool-use loop exceeded max steps"@,
{
    AgentError::Capability(to_owned_string("tool-use loop exceeded max steps"))
}

/// Tool `i` of the agent's set is named `name`.
pub open spec fn tool_named_at(names: Seq<String>, name: Seq<char>) -> spec_fn(int) -> bool {
    |i: int| names[i]@ == name
}

/// Dispatches a model's tool call to the agent's own tool of that name (the first, by position
/// in its set); a tool outside the set is refused, so an agent can only run its own tools.
pub fn find_tool(names: &[String], name: &str) -> (r: Result<usize, AgentError>)
    ensures
        match first_where(names@.len() as int, tool_named_at(names@, name@)) {
            Some(i) => r == Ok::<usize, AgentError>(i as usize),
            None => r matches Err(AgentError::UnknownTool(n)) && n@ == name@,
        },
{
    let mut i: usize = 0;
    while i < names.len()
        invariant
            i <= names.len(),
            forall|j: int| 0 <= j < i ==> !#[trigger] tool_named_at(names@, name@)(j),
        decreases names.len() - i,
    {
        if str_eq(names[i].as_str(), name) {
            proof {
                lemma_first_where_some(names@.len() as int, tool_named_at(names@, name@), i as int);
            }
            return Ok(i);
        }
        i += 1;
    }
    proof {
        lemma_first_where_none(names@.len() as int, tool_named_at(names@, name@));
    }
    Err(AgentError::UnknownTool(to_owned_string(name)))
}

/// What the model is told of a rejected call, so it corrects its arguments and calls again.
pub fn rejected_reply(reason: &str) -> (r: String)
    ensures
        r@ == "REJECTED: "@ + reason@,
{
    concat2("REJECTED: ", reason)
}

} // verus!
