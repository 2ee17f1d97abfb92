//! The falcon-chart kinds the charter may emit: a closed set, named on the wire in lowercase.

use vstd::prelude::*;

use crate::text::str_eq;

verus! {

/// The chart kind, mirroring the frontend's `chartType` field. A value outside the set is
/// rejected back to the model.
#[derive(Clone, Copy, Debug, PartialEq, Eq)]
pub enum ChartType {
    /// Comparing discrete categories or a handful of periods side by side.
    Bar,
    /// Tracking one metric across an ordered time sequence.
    Line,
    /// How parts make up a whole across a few slices.
    Pie,
}

/// The wire name of a chart kind.
pub open spec fn chart_wire(t: ChartType) -> Seq<char> {
    match t {
        ChartType::Bar => "bar"@,
        ChartType::Line => "line"@,
        ChartType::Pie => "pie"@,
    }
}

/// The chart kind a wire name denotes, if any.
pub open spec fn chart_of_wire(s: Seq<char>) -> Option<ChartType> {
    if s == "bar"@ {
        Some(ChartType::Bar)
    } else if s == "line"@ {
        Some(ChartType::Line)
    } else if s == "pie"@ {
        Some(ChartType::Pie)
    } else {
        None
    }
}

impl ChartType {
    /// The kind's wire name (`bar`, `line`, `pie`).
    pub fn wire_name(&self) -> (r: &'static str)
        ensures
            r@ == chart_wire(*self),
    {
        match self {
            ChartType::Bar => "bar",
            ChartType::Line => "line",
            ChartType::Pie => "pie",
        }
    }

    /// Reads a wire name; anything outside the closed set is `None`.
    pub fn from_wire(s: &str) -> (r: Option<ChartType>)
        ensures
            r == chart_of_wire(s@),
    {
        if str_eq(s, "bar") {
            Some(ChartType::Bar)
        } else if str_eq(s, "line") {
            Some(ChartType::Line)
        } else if str_eq(s, "pie") {
            Some(ChartType::Pie)
        } else {
            None
        }
    }
}

/// Every chart kind reads back from its wire name, and the wire names are pairwise distinct.
pub proof fn law_chart_type_round_trips(t: ChartType, u: ChartType)
    ensures
        chart_of_wire(chart_wire(t)) == Some(t),
        t != u ==> chart_wire(t) != chart_wire(u),
{
    reveal_strlit("bar");
    reveal_strlit("line");
    reveal_strlit("pie");
    assert("bar"@.len() == 3 && "line"@.len() == 4 && "pie"@.len() == 3);
    assert("bar"@[0] != "pie"@[0]);
}

} // verus!
