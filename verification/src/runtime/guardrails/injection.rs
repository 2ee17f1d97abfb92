//! Versioned prompt-injection detection.

use vstd::prelude::*;

use crate::pattern::{pattern_error, is_match, regex_is_match, regex_valid};
use crate::text::to_owned_string;

verus! {

/// One injection rule: a regex pattern the regex crate accepts.
#[derive(Debug)]
pub struct InjectionRule {
    pattern: String,
}

impl Clone for InjectionRule {
    /// A rule with the same pattern.
    fn clone(&self) -> (r: Self)
        ensures
            r.source() == self.source(),
    {
        proof {
            use_type_invariant(self);
        }
        InjectionRule { pattern: self.pattern.clone() }
    }
}

impl InjectionRule {
    /// The rule's pattern source is a valid regex.
    #[verifier::type_invariant]
    spec fn compiles(self) -> bool {
        regex_valid(self.pattern@)
    }

    /// The rule's pattern source.
    pub closed spec fn source(self) -> Seq<char> {
        self.pattern@
    }

    /// Compile a new injection rule; the error is the regex crate's message.
    pub fn new(pattern: &str) -> (r: Result<Self, String>)
        ensures
            r is Ok <==> regex_valid(pattern@),
            r matches Ok(rule) ==> rule.source() == pattern@,
    {
        match pattern_error(pattern) {
            Some(e) => Err(e),
            None => Ok(InjectionRule { pattern: to_owned_string(pattern) }),
        }
    }

    /// Return whether the rule matches text.
    pub fn is_match(&self, text: &str) -> (r: bool)
        ensures
            r == regex_is_match(self.source(), text@),
    {
        proof {
            use_type_invariant(self);
        }
        is_match(self.pattern.as_str(), text)
    }
}

/// Whether any rule of `rules` matches `text`.
pub open spec fn any_rule_matches(rules: Seq<Seq<char>>, text: Seq<char>) -> bool {
    exists|i: int| 0 <= i < rules.len() && regex_is_match(#[trigger] rules[i], text)
}

/// Versioned prompt injection detector.
#[derive(Debug, Clone)]
pub struct InjectionDetector {
    version: u32,
    rules: Vec<InjectionRule>,
}

impl InjectionDetector {
    /// The pattern sources, in order.
    pub closed spec fn patterns(self) -> Seq<Seq<char>> {
        self.rules@.map_values(|r: InjectionRule| r.source())
    }

    /// The rule-set version.
    pub closed spec fn spec_version(self) -> u32 {
        self.version
    }

    /// Whether the detector flags `text`.
    pub open spec fn flags(self, text: Seq<char>) -> bool {
        any_rule_matches(self.patterns(), text)
    }

    /// Compile a versioned detector from regex pattern strings; the first pattern the regex
    /// crate refuses fails the whole detector with that pattern's error.
    pub fn new(version: u32, patterns: Vec<String>) -> (r: Result<Self, String>)
        ensures
            r is Ok <==> forall|i: int| 0 <= i < patterns.len() ==> regex_valid(#[trigger] patterns@[i]@),
            r matches Ok(d) ==> d.spec_version() == version && d.patterns() == patterns@.map_values(|p: String| p@),
    {
        let mut rules: Vec<InjectionRule> = Vec::new();
        let mut i: usize = 0;
        while i < patterns.len()
            invariant
                i <= patterns.len(),
                rules.len() == i,
                forall|j: int| 0 <= j < i ==> #[trigger] rules@[j].source() == patterns@[j]@,
                forall|j: int| 0 <= j < i ==> regex_valid(#[trigger] patterns@[j]@),
            decreases patterns.len() - i,
        {
            match InjectionRule::new(patterns[i].as_str()) {
                Ok(rule) => rules.push(rule),
                Err(e) => return Err(e),
            }
            i += 1;
        }
        let d = InjectionDetector { version, rules };
        assert(d.patterns() =~= patterns@.map_values(|p: String| p@));
        Ok(d)
    }

    /// Detector rule-set version.
    pub fn version(&self) -> (v: u32)
        ensures
            v == self.spec_version(),
    {
        self.version
    }

    /// Return true when any rule matches.
    pub fn is_match(&self, text: &str) -> (r: bool)
        ensures
            r == self.flags(text@),
    {
        let mut i: usize = 0;
        while i < self.rules.len()
            invariant
                i <= self.rules.len(),
                forall|j: int| 0 <= j < i ==> !regex_is_match(#[trigger] self.rules@[j].source(), text@),
            decreases self.rules.len() - i,
        {
            if self.rules[i].is_match(text) {
                assert(self.patterns()[i as int] == self.rules@[i as int].source());
                return true;
            }
            i += 1;
        }
        assert forall|j: int| 0 <= j < self.patterns().len() implies !regex_is_match(#[trigger] self.patterns()[j], text@) by {
            assert(self.patterns()[j] == self.rules@[j].source());
        }
        false
    }
}

} // verus!
