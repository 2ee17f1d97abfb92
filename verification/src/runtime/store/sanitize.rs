//! Deterministic summary-field sanitization: redact configured sensitive patterns, collapse
//! whitespace, then truncate to the per-field character limit.

use vstd::prelude::*;

use crate::pattern::{pattern_error, regex_replace_all, regex_valid, replace_all};
use crate::text::{chars_vec, collapse_whitespace, collapse_ws, string_from_range, to_owned_string};

verus! {

/// The text inserted where a sensitive pattern matched.
pub const REDACTED: &'static str = "[REDACTED]";

/// The text inserted where a sensitive pattern matched, as a sequence.
pub open spec fn redacted_marker() -> Seq<char> {
    "[REDACTED]"@
}

/// A sensitive pattern the regex crate accepts.
#[derive(Debug)]
pub struct RedactPattern {
    source: String,
}

impl RedactPattern {
    /// The pattern compiles.
    #[verifier::type_invariant]
    spec fn compiles(self) -> bool {
        regex_valid(self.source@)
    }

    /// The pattern's source text.
    pub closed spec fn text(self) -> Seq<char> {
        self.source@
    }

    /// Compiles a sensitive pattern; the error is the regex crate's message.
    pub fn new(source: &str) -> (r: Result<Self, String>)
        ensures
            r is Ok <==> regex_valid(source@),
            r matches Ok(p) ==> p.text() == source@,
    {
        match pattern_error(source) {
            Some(e) => Err(e),
            None => Ok(RedactPattern { source: to_owned_string(source) }),
        }
    }

    /// Every match of the pattern in `text` replaced by `[REDACTED]`.
    pub fn redact(&self, text: &str) -> (r: String)
        ensures
            r@ == regex_replace_all(self.text(), text@, redacted_marker()),
    {
        proof {
            use_type_invariant(self);
        }
        replace_all(self.source.as_str(), text, REDACTED)
    }
}

/// The sources of the default sensitive patterns: email, IPv4, full and compressed IPv6, bearer
/// tokens and cookie headers.
pub open spec fn default_sources() -> Seq<Seq<char>> {
    seq![
        "(?i)[a-z0-9._%+-]+@[a-z0-9.-]+\\.[a-z]{2,}"@,
        "\\b(?:\\d{1,3}\\.){3}\\d{1,3}\\b"@,
        "(?i)\\b(?:[0-9a-f]{1,4}:){7}[0-9a-f]{1,4}\\b"@,
        "(?i)(?:\\b(?:[0-9a-f]{1,4}:){1,7}:|::)(?:[0-9a-f]{1,4}(?::[0-9a-f]{1,4}){0,6}\\b)?"@,
        "(?i)bearer\\s+[a-z0-9._~+/=-]+"@,
        "(?i)\\bcookie\\s*:\\s*[^\\s;]+(?:;\\s*[^\\s;]+)*"@,
    ]
}

/// The sources among `srcs` that compile, in order.
pub open spec fn compiling(srcs: Seq<Seq<char>>) -> Seq<Seq<char>>
    decreases srcs.len(),
{
    if srcs.len() == 0 {
        Seq::empty()
    } else if regex_valid(srcs.last()) {
        compiling(srcs.drop_last()).push(srcs.last())
    } else {
        compiling(srcs.drop_last())
    }
}

/// The pattern sources of a list of patterns.
pub open spec fn sources(ps: Seq<RedactPattern>) -> Seq<Seq<char>> {
    ps.map_values(|p: RedactPattern| p.text())
}

/// The default sensitive patterns (each of which the regex crate compiles).
pub fn default_redact_patterns() -> (r: Vec<RedactPattern>)
    ensures
        sources(r@) == compiling(default_sources()),
{
    let srcs = [
        "(?i)[a-z0-9._%+-]+@[a-z0-9.-]+\\.[a-z]{2,}",
        "\\b(?:\\d{1,3}\\.){3}\\d{1,3}\\b",
        "(?i)\\b(?:[0-9a-f]{1,4}:){7}[0-9a-f]{1,4}\\b",
        "(?i)(?:\\b(?:[0-9a-f]{1,4}:){1,7}:|::)(?:[0-9a-f]{1,4}(?::[0-9a-f]{1,4}){0,6}\\b)?",
        "(?i)bearer\\s+[a-z0-9._~+/=-]+",
        "(?i)\\bcookie\\s*:\\s*[^\\s;]+(?:;\\s*[^\\s;]+)*",
    ];
    let ghost d = default_sources();
    assert(srcs@.len() == 6);
    let mut out: Vec<RedactPattern> = Vec::new();
    let mut i: usize = 0;
    while i < 6
        invariant
            i <= 6,
            srcs@.len() == 6,
            d == default_sources(),
            forall|k: int| 0 <= k < 6 ==> (#[trigger] srcs@[k])@ == d[k],
            sources(out@) == compiling(d.take(i as int)),
        decreases 6 - i,
    {
        proof {
            assert(d.take(i as int + 1).drop_last() =~= d.take(i as int));
            assert(d.take(i as int + 1).last() == d[i as int]);
        }
        match RedactPattern::new(srcs[i]) {
            Ok(p) => {
                let ghost before = sources(out@);
                out.push(p);
                assert(sources(out@) =~= before.push(d[i as int]));
            },
            Err(_) => {},
        }
        i += 1;
    }
    assert(d.take(6) =~= d);
    out
}

/// Every pattern of `ps` applied in turn.
pub open spec fn redacted_by(text: Seq<char>, ps: Seq<Seq<char>>) -> Seq<char>
    decreases ps.len(),
{
    if ps.len() == 0 {
        text
    } else {
        regex_replace_all(ps.last(), redacted_by(text, ps.drop_last()), redacted_marker())
    }
}

/// The sanitized form of a summary field: redacted, whitespace collapsed, at most `limit`
/// characters.
pub open spec fn sanitized_field(text: Seq<char>, ps: Seq<Seq<char>>, limit: nat) -> Seq<char> {
    let c = collapse_ws(redacted_by(text, ps));
    if c.len() <= limit {
        c
    } else {
        c.take(limit as int)
    }
}

/// Applies the fixed sanitization pipeline to one summary field.
pub fn sanitize_field(input: &str, patterns: &[RedactPattern], char_limit: usize) -> (r: String)
    ensures
        r@ == sanitized_field(input@, sources(patterns@), char_limit as nat),
{
    let mut redacted = to_owned_string(input);
    let mut i: usize = 0;
    while i < patterns.len()
        invariant
            i <= patterns.len(),
            redacted@ == redacted_by(input@, sources(patterns@).take(i as int)),
        decreases patterns.len() - i,
    {
        proof {
            let t = sources(patterns@).take(i as int + 1);
            assert(t.drop_last() =~= sources(patterns@).take(i as int));
            assert(t.last() == patterns@[i as int].text());
        }
        redacted = patterns[i].redact(redacted.as_str());
        i += 1;
    }
    assert(sources(patterns@).take(patterns.len() as int) =~= sources(patterns@));
    let collapsed = collapse_whitespace(redacted.as_str());
    let cs = chars_vec(collapsed.as_str());
    if cs.len() <= char_limit {
        collapsed
    } else {
        let r = string_from_range(&cs, 0, char_limit);
        assert(r@ =~= cs@.take(char_limit as int));
        r
    }
}

} // verus!
