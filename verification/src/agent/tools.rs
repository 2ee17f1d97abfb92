//! The closed logical tool vocabulary and the tool layer's boot errors.

use vstd::prelude::*;

use crate::search::{first_where, lemma_first_where_none, lemma_first_where_some};
use crate::text::{concat2, str_eq};

verus! {

/// The logical identifier of a tool, decoupled from any backend.
///
/// Closed on purpose: every grant and every registration is checked against it at boot.
#[derive(Clone, Copy, PartialEq, Eq, Hash, Debug)]
pub enum ToolId {
    /// MCP-backed data fetch: bill revenue.
    BillRevenue,
    /// Output sink: validate and emit a chart spec.
    EmitChart,
    /// Validator/compute: a calculator.
    Calculate,
}

/// The canonical wire name of a tool.
pub open spec fn tool_name(id: ToolId) -> Seq<char> {
    match id {
        ToolId::BillRevenue => "bill_revenue"@,
        ToolId::EmitChart => "emit_chart"@,
        ToolId::Calculate => "calculate"@,
    }
}

/// The tool whose canonical name is `s`, if any.
pub open spec fn tool_from_name(s: Seq<char>) -> Option<ToolId> {
    if s == "bill_revenue"@ {
        Some(ToolId::BillRevenue)
    } else if s == "emit_chart"@ {
        Some(ToolId::EmitChart)
    } else if s == "calculate"@ {
        Some(ToolId::Calculate)
    } else {
        None
    }
}

/// Every tool id, in declaration order.
pub open spec fn all_tools() -> Seq<ToolId> {
    seq![ToolId::BillRevenue, ToolId::EmitChart, ToolId::Calculate]
}

impl ToolId {
    /// The canonical wire name (`bill_revenue`, `emit_chart`, `calculate`).
    pub fn as_str(&self) -> (r: &'static str)
        ensures
            r@ == tool_name(*self),
    {
        match self {
            ToolId::BillRevenue => "bill_revenue",
            ToolId::EmitChart => "emit_chart",
            ToolId::Calculate => "calculate",
        }
    }

    /// Parses a canonical wire name; anything else is `unknown ToolId: {s}`.
    pub fn parse(s: &str) -> (r: Result<ToolId, String>)
        ensures
            match r {
                Ok(id) => tool_from_name(s@) == Some(id),
                Err(e) => tool_from_name(s@) is None && e@ == "unknown ToolId: "@ + s@,
            },
    {
        if str_eq(s, "bill_revenue") {
            Ok(ToolId::BillRevenue)
        } else if str_eq(s, "emit_chart") {
            Ok(ToolId::EmitChart)
        } else if str_eq(s, "calculate") {
            Ok(ToolId::Calculate)
        } else {
            Err(concat2("unknown ToolId: ", s))
        }
    }
}

impl std::str::FromStr for ToolId {
    type Err = String;

    /// Parses a canonical wire name as [`ToolId::parse`] does.
    fn from_str(s: &str) -> (r: Result<Self, Self::Err>)
        ensures
            match r {
                Ok(id) => tool_from_name(s@) == Some(id),
                Err(e) => tool_from_name(s@) is None && e@ == "unknown ToolId: "@ + s@,
            },
    {
        ToolId::parse(s)
    }
}

/// Every [`ToolId`] variant, so a registry can assert completeness at boot.
pub fn all_tool_ids() -> (r: Vec<ToolId>)
    ensures
        r@ == all_tools(),
{
    let r = vec![ToolId::BillRevenue, ToolId::EmitChart, ToolId::Calculate];
    assert(r@ =~= all_tools());
    r
}

/// A boot or resolution failure at the tool layer.
#[derive(Debug, PartialEq, Eq)]
pub enum ToolError {
    /// A granted or looked-up id has no registered backend.
    Unknown(ToolId),
    /// The closed set has an id with no backend at boot.
    Unbacked(ToolId),
    /// Two backends registered for one id.
    Duplicate(ToolId),
}

/// The human-readable text of a tool-layer error.
pub open spec fn tool_error_text(e: ToolError) -> Seq<char> {
    match e {
        ToolError::Unknown(id) => "no registry entry for tool `"@ + tool_name(id) + "`"@,
        ToolError::Unbacked(id) => "tool `"@ + tool_name(id)
            + "` is in the closed set but has no backend"@,
        ToolError::Duplicate(id) => "tool `"@ + tool_name(id) + "` registered more than once"@,
    }
}

impl ToolError {
    /// The error's message.
    pub fn message(&self) -> (r: String)
        ensures
            r@ == tool_error_text(*self),
    {
        match self {
            ToolError::Unknown(id) => {
                let a = concat2("no registry entry for tool `", id.as_str());
                concat2(a.as_str(), "`")
            },
            ToolError::Unbacked(id) => {
                let a = concat2("tool `", id.as_str());
                concat2(a.as_str(), "` is in the closed set but has no backend")
            },
            ToolError::Duplicate(id) => {
                let a = concat2("tool `", id.as_str());
                concat2(a.as_str(), "` registered more than once")
            },
        }
    }
}

/// Every tool's canonical name parses back to the same tool, and no two tools share a name.
pub proof fn lemma_tool_id_round_trip(id: ToolId)
    ensures
        tool_from_name(tool_name(id)) == Some(id),
{
    reveal_strlit("bill_revenue");
    reveal_strlit("emit_chart");
    reveal_strlit("calculate");
    assert("bill_revenue"@.len() == 12 && "emit_chart"@.len() == 10 && "calculate"@.len() == 9);
}


/// Whether two tool ids are the same.
pub fn same_tool(a: ToolId, b: ToolId) -> (r: bool)
    ensures
        r == (a == b),
{
    match (a, b) {
        (ToolId::BillRevenue, ToolId::BillRevenue) => true,
        (ToolId::EmitChart, ToolId::EmitChart) => true,
        (ToolId::Calculate, ToolId::Calculate) => true,
        _ => false,
    }
}

/// The designer-owned map from logical tool id to its backend: a closed set with exactly one
/// backend per id, every grant resolved against it at boot.
pub struct ToolRegistry<B> {
    entries: Vec<(ToolId, B)>,
}

/// Entry `i` of the registry backs `id`.
pub open spec fn backs_at<B>(entries: Seq<(ToolId, B)>, id: ToolId) -> spec_fn(int) -> bool {
    |i: int| entries[i].0 == id
}

/// Grant or closed-set entry `i` has no backend.
pub open spec fn unbacked_at<B>(ids: Seq<ToolId>, backends: Map<ToolId, B>) -> spec_fn(int) -> bool {
    |i: int| !backends.contains_key(ids[i])
}

impl<B> ToolRegistry<B> {
    /// One entry per id.
    #[verifier::type_invariant]
    spec fn ids_unique(self) -> bool {
        forall|a: int, b: int|
            0 <= a < b < self.entries@.len() ==> (#[trigger] self.entries@[a]).0 != (
            #[trigger] self.entries@[b]).0
    }

    /// The registered backends, by id.
    pub closed spec fn backends(self) -> Map<ToolId, B> {
        Map::new(
            |id: ToolId| exists|i: int| 0 <= i < self.entries@.len() && self.entries@[i].0 == id,
            |id: ToolId|
                self.entries@[choose|i: int| 0 <= i < self.entries@.len() && self.entries@[i].0 == id].1,
        )
    }

    /// An empty registry.
    pub fn new() -> (r: Self)
        ensures
            r.backends() == Map::<ToolId, B>::empty(),
    {
        let r = ToolRegistry { entries: Vec::new() };
        assert(r.backends() =~= Map::<ToolId, B>::empty());
        r
    }

    /// The position of `id`'s entry.
    fn position(&self, id: ToolId) -> (r: Option<usize>)
        ensures
            match r {
                Some(i) => i < self.entries@.len() && self.entries@[i as int].0 == id
                    && self.backends().contains_key(id) && self.backends()[id]
                    == self.entries@[i as int].1,
                None => !self.backends().contains_key(id),
            },
    {
        proof {
            use_type_invariant(self);
        }
        let mut i: usize = 0;
        while i < self.entries.len()
            invariant
                i <= self.entries.len(),
                forall|j: int| 0 <= j < i ==> self.entries@[j].0 != id,
                forall|a: int, b: int|
                    0 <= a < b < self.entries@.len() ==> (#[trigger] self.entries@[a]).0 != (
                    #[trigger] self.entries@[b]).0,
            decreases self.entries.len() - i,
        {
            if same_tool(self.entries[i].0, id) {
                proof {
                    assert(self.entries@[i as int].0 == id);
                    assert(self.backends().contains_key(id));
                    let c = choose|c: int| 0 <= c < self.entries@.len() && self.entries@[c].0 == id;
                    if c != i {
                        assert(self.entries@[c].0 == self.entries@[i as int].0);
                    }
                }
                return Some(i);
            }
            i += 1;
        }
        None
    }

    /// Registers the backend of one tool; a second registration for the same id is rejected and
    /// leaves the registry as it was.
    pub fn register(&mut self, id: ToolId, backend: B) -> (r: Result<(), ToolError>)
        ensures
            old(self).backends().contains_key(id) ==> r == Err::<(), ToolError>(ToolError::Duplicate(id))
                && final(self).backends() == old(self).backends(),
            !old(self).backends().contains_key(id) ==> r is Ok && final(self).backends()
                == old(self).backends().insert(id, backend),
    {
        if self.position(id).is_some() {
            return Err(ToolError::Duplicate(id));
        }
        proof {
            use_type_invariant(&*self);
        }
        let ghost before = self.entries@;
        let mut entries: Vec<(ToolId, B)> = Vec::new();
        std::mem::swap(&mut entries, &mut self.entries);
        entries.push((id, backend));
        proof {
            assert forall|a: int, b: int| 0 <= a < b < entries@.len() implies (#[trigger] entries@[a]).0
                != (#[trigger] entries@[b]).0 by {
                if b == before.len() {
                    assert(entries@[a] == before[a]);
                }
            }
        }
        self.entries = entries;
        proof {
            let after = self.entries@;
            assert forall|k: ToolId| #[trigger] self.backends().contains_key(k) == old(self).backends().insert(
                id,
                backend,
            ).contains_key(k) by {
                if exists|i: int| 0 <= i < after.len() && after[i].0 == k {
                    let i = choose|i: int| 0 <= i < after.len() && after[i].0 == k;
                    if i < before.len() {
                        assert(before[i].0 == k);
                    }
                }
                if exists|i: int| 0 <= i < before.len() && before[i].0 == k {
                    let i = choose|i: int| 0 <= i < before.len() && before[i].0 == k;
                    assert(after[i].0 == k);
                }
                if k == id {
                    assert(after[before.len() as int].0 == k);
                }
            }
            assert forall|k: ToolId| #[trigger] self.backends().contains_key(k) implies self.backends()[k]
                == old(self).backends().insert(id, backend)[k] by {
                let c = choose|c: int| 0 <= c < after.len() && after[c].0 == k;
                if k == id {
                    assert(after[before.len() as int].0 == k);
                    if c != before.len() {
                        assert(after[c].0 == after[before.len() as int].0);
                    }
                } else {
                    assert(c < before.len());
                    let d = choose|d: int| 0 <= d < before.len() && before[d].0 == k;
                    if c != d {
                        assert(before[c].0 == before[d].0);
                    }
                }
            }
            assert(self.backends() =~= old(self).backends().insert(id, backend));
        }
        Ok(())
    }

    /// Checks that every id of the closed set `all` has a backend; the first that has none is
    /// reported.
    pub fn assert_complete(&self, all: &[ToolId]) -> (r: Result<(), ToolError>)
        ensures
            match first_where(all@.len() as int, unbacked_at(all@, self.backends())) {
                Some(i) => r == Err::<(), ToolError>(ToolError::Unbacked(all@[i])),
                None => r is Ok,
            },
    {
        let mut i: usize = 0;
        while i < all.len()
            invariant
                i <= all.len(),
                forall|j: int| 0 <= j < i ==> !#[trigger] unbacked_at(all@, self.backends())(j),
            decreases all.len() - i,
        {
            if self.position(all[i]).is_none() {
                proof {
                    lemma_first_where_some(all@.len() as int, unbacked_at(all@, self.backends()), i as int);
                }
                return Err(ToolError::Unbacked(all[i]));
            }
            i += 1;
        }
        proof {
            lemma_first_where_none(all@.len() as int, unbacked_at(all@, self.backends()));
        }
        Ok(())
    }

    /// Resolves a grant into its backends, in grant order, failing on the first id that has
    /// none.
    pub fn resolve(&self, grants: &[ToolId]) -> (r: Result<Vec<&B>, ToolError>)
        ensures
            match first_where(grants@.len() as int, unbacked_at(grants@, self.backends())) {
                Some(i) => r == Err::<Vec<&B>, ToolError>(ToolError::Unknown(grants@[i])),
                None => r matches Ok(v) && v@.len() == grants@.len() && forall|j: int|
                    0 <= j < grants@.len() ==> *#[trigger] v@[j] == self.backends()[grants@[j]],
            },
    {
        let mut out: Vec<&B> = Vec::new();
        let mut i: usize = 0;
        while i < grants.len()
            invariant
                i <= grants.len(),
                out@.len() == i,
                forall|j: int| 0 <= j < i ==> !#[trigger] unbacked_at(grants@, self.backends())(j),
                forall|j: int| 0 <= j < i ==> *#[trigger] out@[j] == self.backends()[grants@[j]],
            decreases grants.len() - i,
        {
            match self.position(grants[i]) {
                Some(k) => out.push(&self.entries[k].1),
                None => {
                    proof {
                        lemma_first_where_some(
                            grants@.len() as int,
                            unbacked_at(grants@, self.backends()),
                            i as int,
                        );
                    }
                    return Err(ToolError::Unknown(grants[i]));
                },
            }
            i += 1;
        }
        proof {
            lemma_first_where_none(grants@.len() as int, unbacked_at(grants@, self.backends()));
        }
        Ok(out)
    }
}

} // verus!
