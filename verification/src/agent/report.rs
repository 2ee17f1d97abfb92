//! The report data protocol: the structured payload the composer emits and the renderer injects
//! into the HTML template, with the cross-field invariants the template's script depends on.

use vstd::prelude::*;

use crate::search::{first_where, is_first, lemma_first_where_is_first, lemma_first_where_none,
    lemma_first_where_none_means_no_match, lemma_first_where_some, lemma_seq_lt_transitive, seq_lt,
    str_lt};

use crate::text::{chars_vec, concat2, debug_quoted, decimal, push_str, quote_debug, str_eq,
    to_owned_string, u64_to_decimal};

verus! {

/// An ASCII letter.
pub open spec fn ascii_alpha(c: char) -> bool {
    ('a' <= c && c <= 'z') || ('A' <= c && c <= 'Z')
}

/// An ASCII decimal digit.
pub open spec fn ascii_digit(c: char) -> bool {
    '0' <= c && c <= '9'
}

/// An ASCII letter or digit.
pub open spec fn ascii_alnum(c: char) -> bool {
    ascii_alpha(c) || ascii_digit(c)
}

/// The pieces of `s` between occurrences of `sep`, as `str::split` yields them (at least one).
pub open spec fn split_on(s: Seq<char>, sep: char) -> Seq<Seq<char>>
    decreases s.len(),
{
    if s.len() == 0 {
        seq![Seq::<char>::empty()]
    } else {
        let prev = split_on(s.drop_last(), sep);
        if s.last() == sep {
            prev.push(Seq::<char>::empty())
        } else {
            prev.update(prev.len() - 1, prev.last().push(s.last()))
        }
    }
}

/// `split_on` always yields at least one piece.
pub proof fn lemma_split_on_nonempty(s: Seq<char>, sep: char)
    ensures
        split_on(s, sep).len() >= 1,
    decreases s.len(),
{
    if s.len() > 0 {
        lemma_split_on_nonempty(s.drop_last(), sep);
    }
}

/// The character class subtag `j` of a language tag draws from.
pub open spec fn subtag_char_ok(j: int, c: char) -> bool {
    if j == 0 {
        ascii_alpha(c)
    } else {
        ascii_alnum(c)
    }
}

/// The length bounds subtag `j` of a language tag must meet.
pub open spec fn subtag_len_ok(j: int, n: int) -> bool {
    if j == 0 {
        2 <= n <= 8
    } else {
        1 <= n <= 8
    }
}

/// Subtag `j` of a language tag is well formed.
pub open spec fn subtag_ok(j: int, t: Seq<char>) -> bool {
    subtag_len_ok(j, t.len() as int) && forall|k: int|
        0 <= k < t.len() ==> subtag_char_ok(j, #[trigger] t[k])
}

/// A BCP-47-shaped language tag: hyphen-separated ASCII alphanumeric subtags, the first
/// alphabetic and 2 to 8 characters long, the rest 1 to 8 characters.
pub open spec fn language_tag(s: Seq<char>) -> bool {
    let parts = split_on(s, '-');
    forall|j: int| 0 <= j < parts.len() ==> subtag_ok(j, #[trigger] parts[j])
}

/// Whether `s` is a BCP-47-shaped language tag.
pub fn is_language_tag(s: &str) -> (r: bool)
    ensures
        r == language_tag(s@),
{
    let cs = chars_vec(s);
    let mut ok_before = true;
    let mut seg: usize = 0;
    let mut cur_len: usize = 0;
    let mut cur_class = true;
    let ghost mut parts: Seq<Seq<char>> = seq![Seq::<char>::empty()];
    assert(s@.take(0) =~= Seq::<char>::empty());
    let mut i: usize = 0;
    while i < cs.len()
        invariant
            cs@ == s@,
            i <= cs.len(),
            seg <= i,
            cur_len <= i,
            parts == split_on(s@.take(i as int), '-'),
            parts.len() == seg + 1,
            ok_before == forall|j: int| 0 <= j < seg ==> subtag_ok(j, #[trigger] parts[j]),
            cur_len == parts[seg as int].len(),
            cur_class == forall|k: int|
                0 <= k < cur_len ==> subtag_char_ok(seg as int, #[trigger] parts[seg as int][k]),
        decreases cs.len() - i,
    {
        let c = cs[i];
        let ghost prev = parts;
        proof {
            assert(s@.take(i as int + 1).drop_last() =~= s@.take(i as int));
            assert(s@.take(i as int + 1).last() == c);
            parts = split_on(s@.take(i as int + 1), '-');
        }
        if c == '-' {
            let len_ok = if seg == 0 {
                2 <= cur_len && cur_len <= 8
            } else {
                1 <= cur_len && cur_len <= 8
            };
            proof {
                assert(parts == prev.push(Seq::<char>::empty()));
                assert((len_ok && cur_class) == subtag_ok(seg as int, prev[seg as int]));
                assert forall|j: int| 0 <= j < seg + 1 implies parts[j] == prev[j] by {}
            }
            ok_before = ok_before && len_ok && cur_class;
            seg += 1;
            cur_len = 0;
            cur_class = true;
        } else {
            let in_class = if seg == 0 {
                ('a' <= c && c <= 'z') || ('A' <= c && c <= 'Z')
            } else {
                ('a' <= c && c <= 'z') || ('A' <= c && c <= 'Z') || ('0' <= c && c <= '9')
            };
            proof {
                assert(parts == prev.update(seg as int, prev[seg as int].push(c)));
                assert forall|j: int| 0 <= j < seg implies parts[j] == prev[j] by {}
                assert(parts[seg as int][cur_len as int] == c);
                assert forall|k: int| 0 <= k < cur_len implies parts[seg as int][k]
                    == prev[seg as int][k] by {}
            }
            cur_len += 1;
            cur_class = cur_class && in_class;
        }
        i += 1;
    }
    assert(s@.take(cs.len() as int) =~= s@);
    let len_ok = if seg == 0 {
        2 <= cur_len && cur_len <= 8
    } else {
        1 <= cur_len && cur_len <= 8
    };
    proof {
        assert((len_ok && cur_class) == subtag_ok(seg as int, parts[seg as int]));
    }
    ok_before && len_ok && cur_class
}

/// `YYYY-MM`: four digits, a dash, and a zero-padded month in `01..=12`.
pub open spec fn year_month(s: Seq<char>) -> bool {
    &&& s.len() == 7
    &&& s[4] == '-'
    &&& ascii_digit(s[0]) && ascii_digit(s[1]) && ascii_digit(s[2]) && ascii_digit(s[3])
    &&& ascii_digit(s[5]) && ascii_digit(s[6])
    &&& (s[5] == '0' && s[6] != '0') || (s[5] == '1' && '0' <= s[6] && s[6] <= '2')
}

/// Whether `s` is `YYYY-MM` with a zero-padded month.
pub fn is_year_month(s: &str) -> (r: bool)
    ensures
        r == year_month(s@),
{
    let b = chars_vec(s);
    if b.len() != 7 || b[4] != '-' {
        return false;
    }
    let mut i: usize = 0;
    while i < 7
        invariant
            b@ == s@,
            b.len() == 7,
            i <= 7,
            forall|j: int| 0 <= j < i && j != 4 ==> ascii_digit(#[trigger] b@[j]),
        decreases 7 - i,
    {
        if i != 4 && !('0' <= b[i] && b[i] <= '9') {
            return false;
        }
        i += 1;
    }
    (b[5] == '0' && b[6] != '0') || (b[5] == '1' && '0' <= b[6] && b[6] <= '2')
}

/// Report-level metadata: the header, the period window and the data-quality note.
#[derive(Clone, Debug, PartialEq)]
pub struct ReportMeta {
    pub title: String,
    pub organization: String,
    pub brand: String,
    pub period_label: String,
    pub date_from: String,
    pub date_to: String,
    pub as_of: String,
    /// BCP-47 locale for number and label formatting.
    pub locale: String,
    pub currency: String,
    pub partial_period_note: String,
}

/// Derived pointers the template's KPI logic needs.
#[derive(Clone, Debug, PartialEq)]
pub struct ReportSummary {
    /// The most recent complete month (`YYYY-MM`).
    pub latest_completed_period: String,
    pub top_station_period_label: String,
}

/// The executive narrative panel; empty renders nothing.
#[derive(Clone, Debug, PartialEq)]
pub struct ReportInsight {
    pub headline: String,
    pub paragraphs: Vec<String>,
}

impl Default for ReportInsight {
    /// An empty panel: no headline and no paragraphs.
    fn default() -> (r: Self)
        ensures
            r.headline@.len() == 0,
            r.paragraphs@.len() == 0,
    {
        ReportInsight { headline: String::new(), paragraphs: Vec::new() }
    }
}

/// One month's figures, as far as the report's invariants read them (the monetary and energy
/// figures travel alongside, outside this record).
#[derive(Clone, Debug, PartialEq)]
pub struct Period {
    /// The month, `YYYY-MM`.
    pub period: String,
    pub sessions: u64,
    pub new_members: u64,
    pub total_members: u64,
    pub active_members: u64,
    pub stations: u64,
    pub chargers: u64,
    /// Whether this month is in progress.
    pub partial: bool,
}

/// One station's ranking-table row, as far as the report's invariants read it.
#[derive(Clone, Debug, PartialEq)]
pub struct StationRank {
    /// 1-based rank by revenue.
    pub rank: u32,
    pub name: String,
}

/// The whole report as structured data.
#[derive(Clone, Debug, PartialEq)]
pub struct ReportData {
    pub report: ReportMeta,
    pub summary: ReportSummary,
    pub insight: ReportInsight,
    /// One entry per month, oldest first; the trailing month may be partial.
    pub periods: Vec<Period>,
    /// Stations ranked by revenue, rank 1 first.
    pub station_ranking: Vec<StationRank>,
}

/// The months of the non-partial periods, in order.
pub open spec fn complete_months(ps: Seq<Period>) -> Seq<Seq<char>>
    decreases ps.len(),
{
    if ps.len() == 0 {
        Seq::empty()
    } else {
        let prev = complete_months(ps.drop_last());
        if ps.last().partial {
            prev
        } else {
            prev.push(ps.last().period@)
        }
    }
}

/// The debug renderings of `ms` separated by `, `.
pub open spec fn quoted_joined(ms: Seq<Seq<char>>) -> Seq<char>
    decreases ms.len(),
{
    if ms.len() == 0 {
        Seq::empty()
    } else if ms.len() == 1 {
        debug_quoted(ms[0])
    } else {
        quoted_joined(ms.drop_last()) + ", "@ + debug_quoted(ms.last())
    }
}

/// A list of strings as `{:?}` prints it.
pub open spec fn quoted_list(ms: Seq<Seq<char>>) -> Seq<char> {
    "["@ + quoted_joined(ms) + "]"@
}

/// The month of the most recent complete period, given that only the last period may be partial.
pub open spec fn expected_anchor(ps: Seq<Period>) -> Option<Seq<char>> {
    if ps.len() > 0 && !ps.last().partial {
        Some(ps.last().period@)
    } else if ps.len() >= 2 {
        Some(ps[ps.len() - 2].period@)
    } else {
        None
    }
}

/// The locale rejection.
pub open spec fn err_locale(locale: Seq<char>) -> Seq<char> {
    "report.locale `"@ + locale
        + "` is not a BCP-47 language tag; use hyphen-separated subtags such as `zh-TW`"@
}

/// The empty-periods rejection.
pub open spec fn err_no_periods() -> Seq<char> {
    "periods must contain at least one month; if the fetched data has no monthly figures, do not emit a report — reply that the data is missing"@
}

/// The month-format rejection.
pub open spec fn err_month_format(m: Seq<char>) -> Seq<char> {
    "periods[].period `"@ + m + "` must be `YYYY-MM` with a zero-padded month (e.g. `2026-05`)"@
}

/// The ordering rejection.
pub open spec fn err_order(later: Seq<char>, earlier: Seq<char>) -> Seq<char> {
    "periods must be oldest first without duplicates, but `"@ + later + "` follows `"@ + earlier
        + "`"@
}

/// The mid-window partial rejection.
pub open spec fn err_partial_position(i: nat, m: Seq<char>) -> Seq<char> {
    "only the last month may be partial, but periods["@ + decimal(i) + "] (`"@ + m
        + "`) is partial"@
}

/// The anchor-not-found rejection.
pub open spec fn err_anchor_missing(anchor: Seq<char>, ps: Seq<Period>) -> Seq<char> {
    "summary.latestCompletedPeriod `"@ + anchor
        + "` matches no periods[].period; copy the most recent complete month verbatim (complete months: "@
        + quoted_list(complete_months(ps)) + ")"@
}

/// The anchor-is-partial rejection.
pub open spec fn err_anchor_partial(anchor: Seq<char>, ps: Seq<Period>) -> Seq<char> {
    "summary.latestCompletedPeriod `"@ + anchor
        + "` is the partial month; it must be the most recent month whose partial is false"@
        + match expected_anchor(ps) {
        Some(e) => " (`"@ + e + "`)"@,
        None => Seq::empty(),
    }
}

/// The stale-anchor rejection.
pub open spec fn err_anchor_stale(anchor: Seq<char>, expected: Seq<char>) -> Seq<char> {
    "summary.latestCompletedPeriod `"@ + anchor
        + "` is not the most recent complete month; use `"@ + expected + "`"@
}

/// The empty-ranking rejection.
pub open spec fn err_no_stations() -> Seq<char> {
    "stationRanking must contain at least one station; if the fetched data has no station figures, do not emit a report — reply that the data is missing"@
}

/// The rank-sequence rejection.
pub open spec fn err_rank(i: nat, rank: nat) -> Seq<char> {
    "stationRanking["@ + decimal(i) + "].rank is "@ + decimal(rank)
        + " but ranks must run 1, 2, … in order (expected "@ + decimal(i + 1) + ")"@
}

/// The first index whose month is malformed.
pub open spec fn first_bad_month(ps: Seq<Period>) -> Option<int> {
    first_where(ps.len() as int, bad_month_at(ps))
}

/// Period `i` has a malformed month.
pub open spec fn bad_month_at(ps: Seq<Period>) -> spec_fn(int) -> bool {
    |i: int| !year_month(ps[i].period@)
}

/// Period `i + 1` does not sort strictly after period `i`.
pub open spec fn out_of_order_at(ps: Seq<Period>) -> spec_fn(int) -> bool {
    |i: int| !seq_lt(ps[i].period@, ps[i + 1].period@)
}

/// Period `i` is partial.
pub open spec fn partial_at(ps: Seq<Period>) -> spec_fn(int) -> bool {
    |i: int| ps[i].partial
}

/// Period `i` has month `anchor`.
pub open spec fn month_at(ps: Seq<Period>, anchor: Seq<char>) -> spec_fn(int) -> bool {
    |i: int| ps[i].period@ == anchor
}

/// Station `i`'s rank is not its 1-based position.
pub open spec fn bad_rank_at(rs: Seq<StationRank>) -> spec_fn(int) -> bool {
    |i: int| rs[i].rank != i + 1
}

/// The first index whose successor does not sort strictly after it.
pub open spec fn first_out_of_order(ps: Seq<Period>) -> Option<int> {
    first_where(ps.len() - 1, out_of_order_at(ps))
}

/// The first partial period.
pub open spec fn first_partial(ps: Seq<Period>) -> Option<int> {
    first_where(ps.len() as int, partial_at(ps))
}

/// The first period whose month is `anchor`.
pub open spec fn first_with_month(ps: Seq<Period>, anchor: Seq<char>) -> Option<int> {
    first_where(ps.len() as int, month_at(ps, anchor))
}

/// The first station whose rank is not its 1-based position.
pub open spec fn first_bad_rank(rs: Seq<StationRank>) -> Option<int> {
    first_where(rs.len() as int, bad_rank_at(rs))
}

/// The ranking checks: non-empty, ranks running `1, 2, ...`.
pub open spec fn ranking_check(rs: Seq<StationRank>) -> Option<Seq<char>> {
    if rs.len() == 0 {
        Some(err_no_stations())
    } else {
        match first_bad_rank(rs) {
            Some(i) => Some(err_rank(i as nat, rs[i].rank as nat)),
            None => None,
        }
    }
}

/// The anchor checks, given the periods passed their own checks.
pub open spec fn anchor_check(ps: Seq<Period>, anchor: Seq<char>) -> Option<Seq<char>> {
    match first_with_month(ps, anchor) {
        None => Some(err_anchor_missing(anchor, ps)),
        Some(i) => if ps[i].partial {
            Some(err_anchor_partial(anchor, ps))
        } else {
            match expected_anchor(ps) {
                Some(e) => if e != anchor {
                    Some(err_anchor_stale(anchor, e))
                } else {
                    None
                },
                None => None,
            }
        },
    }
}

/// The first invariant a report breaks, as the rejection text fed back to the model; `None` when
/// the template can render it. Checked in order: locale, non-empty periods, month format, month
/// order, partial position, anchor month, then the station ranking.
pub open spec fn report_check(d: ReportData) -> Option<Seq<char>> {
    let ps = d.periods@;
    if !language_tag(d.report.locale@) {
        Some(err_locale(d.report.locale@))
    } else if ps.len() == 0 {
        Some(err_no_periods())
    } else if first_bad_month(ps) is Some {
        Some(err_month_format(ps[first_bad_month(ps)->0].period@))
    } else if first_out_of_order(ps) is Some {
        let i = first_out_of_order(ps)->0;
        Some(err_order(ps[i + 1].period@, ps[i].period@))
    } else if first_partial(ps) is Some && first_partial(ps)->0 != ps.len() - 1 {
        let i = first_partial(ps)->0;
        Some(err_partial_position(i as nat, ps[i].period@))
    } else if anchor_check(ps, d.summary.latest_completed_period@) is Some {
        anchor_check(ps, d.summary.latest_completed_period@)
    } else {
        ranking_check(d.station_ranking@)
    }
}


/// Renders the complete months of `ps` as `{:?}` prints a list of strings.
fn complete_months_text(ps: &Vec<Period>) -> (r: String)
    ensures
        r@ == quoted_list(complete_months(ps@)),
{
    let mut out = to_owned_string("[");
    let mut count: usize = 0;
    let mut i: usize = 0;
    while i < ps.len()
        invariant
            i <= ps.len(),
            count == complete_months(ps@.take(i as int)).len(),
            count <= i,
            out@ == "["@ + quoted_joined(complete_months(ps@.take(i as int))),
        decreases ps.len() - i,
    {
        let ghost before = complete_months(ps@.take(i as int));
        proof {
            assert(ps@.take(i as int + 1).drop_last() =~= ps@.take(i as int));
            assert(ps@.take(i as int + 1).last() == ps@[i as int]);
        }
        if !ps[i].partial {
            if count > 0 {
                push_str(&mut out, ", ");
            }
            let q = quote_debug(ps[i].period.as_str());
            push_str(&mut out, q.as_str());
            proof {
                let after = complete_months(ps@.take(i as int + 1));
                assert(after == before.push(ps@[i as int].period@));
                assert(after.drop_last() =~= before);
                assert(out@ =~= "["@ + quoted_joined(after));
            }
            count += 1;
        }
        i += 1;
    }
    assert(ps@.take(ps.len() as int) =~= ps@);
    push_str(&mut out, "]");
    out
}

impl ReportData {
    /// Checks the cross-field invariants the HTML template's script depends on; the error names
    /// the offending field and says what to change (see [`report_check`]).
    #[verifier::rlimit(40)]
    pub fn validate(&self) -> (r: Result<(), String>)
        ensures
            r is Ok <==> report_check(*self) is None,
            r matches Err(e) ==> report_check(*self) == Some(e@),
    {
        let ghost ps = self.periods@;
        let locale = self.report.locale.as_str();
        if !is_language_tag(locale) {
            let a = concat2("report.locale `", locale);
            return Err(concat2(
                a.as_str(),
                "` is not a BCP-47 language tag; use hyphen-separated subtags such as `zh-TW`",
            ));
        }
        let n = self.periods.len();
        if n == 0 {
            return Err(to_owned_string(
                "periods must contain at least one month; if the fetched data has no monthly figures, do not emit a report — reply that the data is missing",
            ));
        }
        let mut i: usize = 0;
        while i < n
            invariant
                n == self.periods.len(),
                ps == self.periods@,
                i <= n,
                forall|j: int| 0 <= j < i ==> !#[trigger] bad_month_at(ps)(j),
                language_tag(self.report.locale@),
            decreases n - i,
        {
            if !is_year_month(self.periods[i].period.as_str()) {
                proof {
                    lemma_first_where_some(n as int, bad_month_at(ps), i as int);
                }
                let a = concat2("periods[].period `", self.periods[i].period.as_str());
                let e = concat2(
                    a.as_str(),
                    "` must be `YYYY-MM` with a zero-padded month (e.g. `2026-05`)",
                );
                proof {
                    assert(first_bad_month(ps) == Some(i as int));
                    assert(e@ =~= err_month_format(ps[i as int].period@));
                }
                return Err(e);
            }
            i += 1;
        }
        proof {
            lemma_first_where_none(n as int, bad_month_at(ps));
        }
        let mut i: usize = 0;
        while i + 1 < n
            invariant
                n == self.periods.len(),
                ps == self.periods@,
                n >= 1,
                i <= n - 1,
                forall|j: int| 0 <= j < i ==> !#[trigger] out_of_order_at(ps)(j),
                language_tag(self.report.locale@),
                first_bad_month(ps) is None,
            decreases n - i,
        {
            if !str_lt(self.periods[i].period.as_str(), self.periods[i + 1].period.as_str()) {
                proof {
                    lemma_first_where_some(n - 1, out_of_order_at(ps), i as int);
                    assert(first_bad_month(ps) is None);
                    assert(first_out_of_order(ps) == Some(i as int));
                }
                let mut e = concat2(
                    "periods must be oldest first without duplicates, but `",
                    self.periods[i + 1].period.as_str(),
                );
                push_str(&mut e, "` follows `");
                push_str(&mut e, self.periods[i].period.as_str());
                push_str(&mut e, "`");
                proof {
                    assert(e@ =~= err_order(ps[i + 1].period@, ps[i as int].period@));
                }
                return Err(e);
            }
            i += 1;
        }
        proof {
            lemma_first_where_none(n - 1, out_of_order_at(ps));
        }
        let last = n - 1;
        let mut i: usize = 0;
        while i < n
            invariant
                n == self.periods.len(),
                ps == self.periods@,
                last == n - 1,
                i <= n,
                forall|j: int| 0 <= j < i ==> !#[trigger] partial_at(ps)(j),
                language_tag(self.report.locale@),
                first_bad_month(ps) is None,
                first_out_of_order(ps) is None,
            ensures
                i <= n,
                forall|j: int| 0 <= j < i ==> !#[trigger] partial_at(ps)(j),
                i < n ==> i == last && partial_at(ps)(i as int),
            decreases n - i,
        {
            if self.periods[i].partial {
                proof {
                    lemma_first_where_some(n as int, partial_at(ps), i as int);
                }
                if i != last {
                    let mut e = to_owned_string("only the last month may be partial, but periods[");
                    let d = u64_to_decimal(i as u64);
                    push_str(&mut e, d.as_str());
                    push_str(&mut e, "] (`");
                    push_str(&mut e, self.periods[i].period.as_str());
                    push_str(&mut e, "`) is partial");
                    proof {
                        assert(e@ =~= err_partial_position(i as nat, ps[i as int].period@));
                        assert(first_bad_month(ps) is None);
                        assert(first_out_of_order(ps) is None);
                        assert(first_partial(ps) == Some(i as int));
                    }
                    return Err(e);
                }
                break;
            }
            i += 1;
        }
        proof {
            if i == n {
                lemma_first_where_none(n as int, partial_at(ps));
            }
        }
        let anchor = self.summary.latest_completed_period.as_str();
        let ghost av = anchor@;
        let expected: Option<&str> = if !self.periods[last].partial {
            Some(self.periods[last].period.as_str())
        } else if n >= 2 {
            Some(self.periods[n - 2].period.as_str())
        } else {
            None
        };
        assert(match expected {
            Some(e) => expected_anchor(ps) == Some(e@),
            None => expected_anchor(ps) is None,
        });
        let mut j: usize = 0;
        while j < n
            invariant
                n == self.periods.len(),
                ps == self.periods@,
                j <= n,
                anchor@ == av,
                forall|k: int| 0 <= k < j ==> !#[trigger] month_at(ps, av)(k),
            ensures
                j <= n,
                forall|k: int| 0 <= k < j ==> !#[trigger] month_at(ps, av)(k),
                j < n ==> month_at(ps, av)(j as int),
            decreases n - j,
        {
            if str_eq(self.periods[j].period.as_str(), anchor) {
                break;
            }
            j += 1;
        }
        if j == n {
            proof {
                lemma_first_where_none(n as int, month_at(ps, av));
            }
            let mut e = concat2("summary.latestCompletedPeriod `", anchor);
            push_str(
                &mut e,
                "` matches no periods[].period; copy the most recent complete month verbatim (complete months: ",
            );
            let months = complete_months_text(&self.periods);
            push_str(&mut e, months.as_str());
            push_str(&mut e, ")");
            proof {
                assert(e@ =~= err_anchor_missing(av, ps));
            }
            return Err(e);
        }
        proof {
            assert(month_at(ps, av)(j as int));
            lemma_first_where_some(n as int, month_at(ps, av), j as int);
        }
        if self.periods[j].partial {
            let mut e = concat2("summary.latestCompletedPeriod `", anchor);
            push_str(
                &mut e,
                "` is the partial month; it must be the most recent month whose partial is false",
            );
            match expected {
                Some(x) => {
                    push_str(&mut e, " (`");
                    push_str(&mut e, x);
                    push_str(&mut e, "`)");
                },
                None => {},
            }
            proof {
                assert(e@ =~= err_anchor_partial(av, ps));
            }
            return Err(e);
        }
        match expected {
            Some(x) => {
                if !str_eq(x, anchor) {
                    let mut e = concat2("summary.latestCompletedPeriod `", anchor);
                    push_str(&mut e, "` is not the most recent complete month; use `");
                    push_str(&mut e, x);
                    push_str(&mut e, "`");
                    proof {
                        assert(e@ =~= err_anchor_stale(av, x@));
                    }
                    return Err(e);
                }
            },
            None => {},
        }
        assert(anchor_check(ps, av) is None);
        self.check_ranking()
    }

    /// The ranking part of [`ReportData::validate`].
    fn check_ranking(&self) -> (r: Result<(), String>)
        ensures
            r is Ok <==> ranking_check(self.station_ranking@) is None,
            r matches Err(e) ==> ranking_check(self.station_ranking@) == Some(e@),
    {
        let ghost rs = self.station_ranking@;
        let m = self.station_ranking.len();
        if m == 0 {
            return Err(to_owned_string(
                "stationRanking must contain at least one station; if the fetched data has no station figures, do not emit a report — reply that the data is missing",
            ));
        }
        let mut i: usize = 0;
        while i < m
            invariant
                m == self.station_ranking.len(),
                rs == self.station_ranking@,
                i <= m,
                forall|j: int| 0 <= j < i ==> !#[trigger] bad_rank_at(rs)(j),
            decreases m - i,
        {
            let rank = self.station_ranking[i].rank;
            if rank as u64 != i as u64 + 1 {
                proof {
                    lemma_first_where_some(m as int, bad_rank_at(rs), i as int);
                }
                let mut e = to_owned_string("stationRanking[");
                let d = u64_to_decimal(i as u64);
                push_str(&mut e, d.as_str());
                push_str(&mut e, "].rank is ");
                let rd = u64_to_decimal(rank as u64);
                push_str(&mut e, rd.as_str());
                push_str(&mut e, " but ranks must run 1, 2, … in order (expected ");
                let ed = u64_to_decimal(i as u64 + 1);
                push_str(&mut e, ed.as_str());
                push_str(&mut e, ")");
                proof {
                    assert(e@ =~= err_rank(i as nat, rank as nat));
                }
                return Err(e);
            }
            i += 1;
        }
        proof {
            lemma_first_where_none(m as int, bad_rank_at(rs));
        }
        Ok(())
    }
}


/// A report that passes validation is renderable: its locale is a language tag; its months are
/// well-formed and strictly ascending; only the last may be partial; the anchor is the most recent
/// complete month; and the stations are ranked `1, 2, ...` in order.
pub proof fn law_validated_report_is_renderable(d: ReportData)
    requires
        report_check(d) is None,
    ensures
        language_tag(d.report.locale@),
        d.periods@.len() > 0,
        forall|i: int| 0 <= i < d.periods@.len() ==> year_month(#[trigger] d.periods@[i].period@),
        forall|i: int, j: int|
            0 <= i < j < d.periods@.len() ==> seq_lt(
                #[trigger] d.periods@[i].period@,
                #[trigger] d.periods@[j].period@,
            ),
        forall|i: int| 0 <= i < d.periods@.len() - 1 ==> !(#[trigger] d.periods@[i]).partial,
        expected_anchor(d.periods@) == Some(d.summary.latest_completed_period@),
        d.station_ranking@.len() > 0,
        forall|i: int| 0 <= i < d.station_ranking@.len() ==> (#[trigger] d.station_ranking@[i]).rank == i + 1,
{
    let ps = d.periods@;
    let anchor = d.summary.latest_completed_period@;
    lemma_first_where_none_means_no_match(ps.len() as int, bad_month_at(ps));
    assert forall|i: int| 0 <= i < ps.len() implies year_month(#[trigger] ps[i].period@) by {
        assert(!bad_month_at(ps)(i));
    }
    lemma_first_where_none_means_no_match(ps.len() - 1, out_of_order_at(ps));
    assert forall|i: int, j: int| 0 <= i < j < ps.len() implies seq_lt(
        #[trigger] ps[i].period@,
        #[trigger] ps[j].period@,
    ) by {
        lemma_ascending(ps, i, j);
    }
    if first_partial(ps) is Some {
        lemma_first_where_is_first(ps.len() as int, partial_at(ps));
    } else {
        lemma_first_where_none_means_no_match(ps.len() as int, partial_at(ps));
    }
    assert forall|i: int| 0 <= i < ps.len() - 1 implies !(#[trigger] ps[i]).partial by {
        assert(!partial_at(ps)(i));
    }
    let k = first_with_month(ps, anchor)->0;
    lemma_first_where_is_first(ps.len() as int, month_at(ps, anchor));
    assert(ps[k].period@ == anchor);
    if expected_anchor(ps) is None {
        assert(ps.len() == 1 && ps[0].partial);
        assert(k == 0);
    }
    lemma_first_where_none_means_no_match(d.station_ranking@.len() as int, bad_rank_at(d.station_ranking@));
    assert forall|i: int| 0 <= i < d.station_ranking@.len() implies (#[trigger] d.station_ranking@[i]).rank == i + 1 by {
        assert(!bad_rank_at(d.station_ranking@)(i));
    }
}

/// Adjacent ascending months ascend across any gap.
proof fn lemma_ascending(ps: Seq<Period>, i: int, j: int)
    requires
        0 <= i < j < ps.len(),
        forall|k: int| 0 <= k < ps.len() - 1 ==> !#[trigger] out_of_order_at(ps)(k),
    ensures
        seq_lt(ps[i].period@, ps[j].period@),
    decreases j - i,
{
    assert(!out_of_order_at(ps)(i));
    if j > i + 1 {
        lemma_ascending(ps, i + 1, j);
        lemma_seq_lt_transitive(ps[i].period@, ps[i + 1].period@, ps[j].period@);
    }
}

} // verus!
