//! A scan of texts for personal data of eight kinds, each with a severity.
//!
//! The scan goes by the kinds in a fixed order and reports every match of a
//! kind's pattern in the whole text.

use crate::models::Severity;
use crate::pattern::{
    compile, compiles, find_all, match_views, pattern_compiles, pattern_matches, pattern_of,
    MatchView,
};
use crate::text::owned;
use vstd::prelude::*;

verus! {

/// Pattern for numeric student identifiers.
pub const NUMERIC_ID_PATTERN: &'static str = r"\b\d{6,10}\b";

/// Pattern for e-mail addresses.
pub const EMAIL_ADDRESS_PATTERN: &'static str =
    r"\b[A-Za-z0-9._%+-]+@[A-Za-z0-9.-]+\.[A-Z|a-z]{2,}\b";

/// Pattern for North American telephone numbers.
pub const PHONE_NUMBER_PATTERN: &'static str = r"\b(\+?1[-.]?)?\(?\d{3}\)?[-.]?\d{3}[-.]?\d{4}\b";

/// Pattern for social security numbers.
pub const SSN_PATTERN: &'static str = r"\b\d{3}-\d{2}-\d{4}\b";

/// Pattern for payment card numbers.
pub const CARD_NUMBER_PATTERN: &'static str = r"\b\d{4}[-\s]?\d{4}[-\s]?\d{4}[-\s]?\d{4}\b";

/// Pattern for street addresses.
pub const STREET_ADDRESS_PATTERN: &'static str =
    r"\b\d{1,5}\s+[A-Z][a-z]+\s+(Street|St|Avenue|Ave|Road|Rd|Boulevard|Blvd)\b";

/// Pattern for network addresses.
pub const IP_ADDRESS_PATTERN: &'static str = r"\b(?:\d{1,3}\.){3}\d{1,3}\b";

/// Pattern for a first and a last name.
pub const FULL_NAME_PATTERN: &'static str = r"\b[A-Z][a-z]+\s+[A-Z][a-z]+\b";

/// One kind of personal data: its name, the source of its pattern, and how
/// grave a finding of it is.
pub struct Rule {
    pub name: Seq<char>,
    pub source: Seq<char>,
    pub severity: Severity,
}

/// The eight kinds, in the order in which a scan goes by them.
pub open spec fn rules() -> Seq<Rule> {
    seq![
        Rule {
            name: "Student ID (Numeric)"@,
            source: NUMERIC_ID_PATTERN@,
            severity: Severity::High,
        },
        Rule { name: "Email Address"@, source: EMAIL_ADDRESS_PATTERN@, severity: Severity::High },
        Rule { name: "Phone Number"@, source: PHONE_NUMBER_PATTERN@, severity: Severity::Medium },
        Rule { name: "Social Security Number"@, source: SSN_PATTERN@, severity: Severity::Critical },
        Rule {
            name: "Credit Card Number"@,
            source: CARD_NUMBER_PATTERN@,
            severity: Severity::Critical,
        },
        Rule {
            name: "Street Address"@,
            source: STREET_ADDRESS_PATTERN@,
            severity: Severity::Medium,
        },
        Rule { name: "IP Address"@, source: IP_ADDRESS_PATTERN@, severity: Severity::Low },
        Rule { name: "Full Name Pattern"@, source: FULL_NAME_PATTERN@, severity: Severity::Medium },
    ]
}

/// Whether the patterns of all eight kinds compile.
pub open spec fn rules_compile() -> bool {
    &&& pattern_compiles(NUMERIC_ID_PATTERN@)
    &&& pattern_compiles(EMAIL_ADDRESS_PATTERN@)
    &&& pattern_compiles(PHONE_NUMBER_PATTERN@)
    &&& pattern_compiles(SSN_PATTERN@)
    &&& pattern_compiles(CARD_NUMBER_PATTERN@)
    &&& pattern_compiles(STREET_ADDRESS_PATTERN@)
    &&& pattern_compiles(IP_ADDRESS_PATTERN@)
    &&& pattern_compiles(FULL_NAME_PATTERN@)
}

/// One finding: the name of the kind, the text matched, the severity.
pub struct FindingView {
    pub name: Seq<char>,
    pub matched: Seq<char>,
    pub severity: Severity,
}

/// The view of a finding.
pub open spec fn finding_view(f: (String, String, Severity)) -> FindingView {
    FindingView { name: f.0@, matched: f.1@, severity: f.2 }
}

/// The views of a vector of findings.
pub open spec fn finding_views(v: Seq<(String, String, Severity)>) -> Seq<FindingView> {
    v.map_values(|f: (String, String, Severity)| finding_view(f))
}

/// The findings of one kind in a text, from left to right.
pub open spec fn rule_findings(rule: Rule, text: Seq<char>) -> Seq<FindingView> {
    pattern_matches(rule.source, text).map_values(
        |m: MatchView| FindingView { name: rule.name, matched: m.text, severity: rule.severity },
    )
}

/// The findings of the given kinds in a text, kind by kind.
pub open spec fn findings(kinds: Seq<Rule>, text: Seq<char>) -> Seq<FindingView>
    decreases kinds.len(),
{
    if kinds.len() == 0 {
        seq![]
    } else {
        findings(kinds.drop_last(), text) + rule_findings(kinds.last(), text)
    }
}

/// A kind of personal data with its compiled pattern. The pattern is kept
/// from view: it is compiled here from its source and in no other way.
pub struct PIIPattern {
    pub name: String,
    pattern: regex::Regex,
    pub severity: Severity,
}

impl PIIPattern {
    /// The kind as contracts speak of it.
    pub closed spec fn rule(self) -> Rule {
        Rule { name: self.name@, source: pattern_of(self.pattern), severity: self.severity }
    }
}

/// The kinds of a vector of patterns.
pub open spec fn rules_of(v: Seq<PIIPattern>) -> Seq<Rule> {
    v.map_values(|p: PIIPattern| p.rule())
}

/// Scans texts for personal data.
pub struct PIIDetector {
    patterns: Vec<PIIPattern>,
}

fn add_rule(patterns: &mut Vec<PIIPattern>, name: &str, source: &str, severity: Severity)
    requires
        pattern_compiles(source@),
    ensures
        rules_of(final(patterns)@) == rules_of(old(patterns)@).push(
            Rule { name: name@, source: source@, severity },
        ),
{
    let pattern = PIIPattern { name: owned(name), pattern: compile(source).unwrap(), severity };
    assert(rules_of(patterns@.push(pattern)) =~= rules_of(patterns@).push(pattern.rule()));
    patterns.push(pattern);
}

impl PIIDetector {
    #[verifier::type_invariant]
    spec fn holds_the_rules(self) -> bool {
        rules_of(self.patterns@) == rules()
    }

    /// The kinds that this detector scans for, each with the source of the
    /// pattern that it holds compiled, in the order of its scan.
    pub closed spec fn kinds(&self) -> Seq<Rule> {
        rules_of(self.patterns@)
    }

    /// A detector with the patterns of the eight kinds compiled.
    pub fn new() -> (d: Self)
        requires
            rules_compile(),
        ensures
            d.kinds() == rules(),
    {
        let mut patterns: Vec<PIIPattern> = Vec::new();
        assert(rules_of(patterns@) =~= Seq::<Rule>::empty());
        add_rule(&mut patterns, "Student ID (Numeric)", NUMERIC_ID_PATTERN, Severity::High);
        add_rule(&mut patterns, "Email Address", EMAIL_ADDRESS_PATTERN, Severity::High);
        add_rule(&mut patterns, "Phone Number", PHONE_NUMBER_PATTERN, Severity::Medium);
        add_rule(&mut patterns, "Social Security Number", SSN_PATTERN, Severity::Critical);
        add_rule(&mut patterns, "Credit Card Number", CARD_NUMBER_PATTERN, Severity::Critical);
        add_rule(&mut patterns, "Street Address", STREET_ADDRESS_PATTERN, Severity::Medium);
        add_rule(&mut patterns, "IP Address", IP_ADDRESS_PATTERN, Severity::Low);
        add_rule(&mut patterns, "Full Name Pattern", FULL_NAME_PATTERN, Severity::Medium);
        assert(rules_of(patterns@) =~= rules());
        PIIDetector { patterns }
    }

    /// A detector, if the patterns of the eight kinds compile.
    pub fn try_new() -> (r: Option<Self>)
        ensures
            r is Some <==> rules_compile(),
            r matches Some(d) ==> d.kinds() == rules(),
    {
        if compiles(NUMERIC_ID_PATTERN) && compiles(EMAIL_ADDRESS_PATTERN) && compiles(
            PHONE_NUMBER_PATTERN,
        ) && compiles(SSN_PATTERN) && compiles(CARD_NUMBER_PATTERN) && compiles(
            STREET_ADDRESS_PATTERN,
        ) && compiles(IP_ADDRESS_PATTERN) && compiles(FULL_NAME_PATTERN) {
            Some(Self::new())
        } else {
            None
        }
    }

    /// Every finding in a text: for each kind in order, each match of its
    /// pattern with the kind's name and severity.
    pub fn scan_text(&self, text: &str) -> (out: Vec<(String, String, Severity)>)
        ensures
            finding_views(out@) == findings(rules(), text@),
    {
        proof {
            use_type_invariant(self);
        }
        let mut out: Vec<(String, String, Severity)> = Vec::new();
        let mut i: usize = 0;
        let ghost kinds = rules_of(self.patterns@);
        proof {
            assert(kinds.take(0) =~= Seq::<Rule>::empty());
            assert(finding_views(out@) =~= Seq::<FindingView>::empty());
        }
        while i < self.patterns.len()
            invariant
                i <= self.patterns.len(),
                kinds == rules_of(self.patterns@),
                kinds == rules(),
                finding_views(out@) == findings(kinds.take(i as int), text@),
            decreases self.patterns.len() - i,
        {
            let pattern = &self.patterns[i];
            let found = find_all(&pattern.pattern, text);
            let ghost rule = pattern.rule();
            let ghost all = rule_findings(rule, text@);
            let ghost before = finding_views(out@);
            let mut k: usize = 0;
            proof {
                assert(kinds[i as int] == rule);
                assert(kinds.take(i + 1).drop_last() =~= kinds.take(i as int));
                assert(kinds.take(i + 1).last() == rule);
                assert(before + all.take(0) =~= before);
            }
            while k < found.len()
                invariant
                    k <= found.len(),
                    rule == pattern.rule(),
                    all == rule_findings(rule, text@),
                    match_views(found@) == pattern_matches(rule.source, text@),
                    all.len() == found.len(),
                    finding_views(out@) == before + all.take(k as int),
                decreases found.len() - k,
            {
                let finding = (pattern.name.clone(), found[k].text.clone(), pattern.severity);
                proof {
                    assert(match_views(found@)[k as int] == found@[k as int]@);
                    assert(finding_view(finding) == all[k as int]);
                    assert(finding_views(out@.push(finding)) =~= finding_views(out@).push(
                        finding_view(finding),
                    ));
                    assert(before + all.take(k + 1) =~= (before + all.take(k as int)).push(
                        all[k as int],
                    ));
                }
                out.push(finding);
                k += 1;
            }
            proof {
                assert(all.take(found.len() as int) =~= all);
            }
            i += 1;
        }
        proof {
            assert(kinds.take(kinds.len() as int) =~= kinds);
        }
        out
    }
}

} // verus!
