use vstd::prelude::*;

use crate::model::{Finding, FindingView};
use crate::risk::RiskLevel;

verus! {

/// How many probes a scan runs, in a fixed order.
pub const PROBE_COUNT: usize = 2;

/// What one probe yields: the latency it models, and at most one finding.
#[derive(Debug)]
pub struct ProbeOutcome {
    pub delay_secs: u64,
    pub finding: Option<Finding>,
}

pub struct ProbeOutcomeView {
    pub delay_secs: u64,
    pub finding: Option<FindingView>,
}

impl View for ProbeOutcome {
    type V = ProbeOutcomeView;

    open spec fn view(&self) -> ProbeOutcomeView {
        ProbeOutcomeView {
            delay_secs: self.delay_secs,
            finding: match self.finding {
                Some(f) => Some(f@),
                None => None,
            },
        }
    }
}

pub open spec fn outcome_views(s: Seq<ProbeOutcome>) -> Seq<ProbeOutcomeView> {
    s.map_values(|o: ProbeOutcome| o@)
}

/// The findings of a run of outcomes, in order, skipping the empty ones.
pub open spec fn findings_of(s: Seq<ProbeOutcomeView>) -> Seq<FindingView> {
    s.filter_map(|o: ProbeOutcomeView| o.finding)
}

/// The part of an address before its first `@` (all of it when there is none).
pub open spec fn local_part(s: Seq<char>) -> Seq<char>
    decreases s.len(),
{
    if s.len() == 0 {
        s
    } else if s[0] == '@' {
        Seq::empty()
    } else {
        seq![s[0]] + local_part(s.drop_first())
    }
}

proof fn lemma_local_part_prefix(s: Seq<char>, i: int)
    requires
        0 <= i <= s.len(),
        i == s.len() || s[i] == '@',
        forall|j: int| 0 <= j < i ==> s[j] != '@',
    ensures
        local_part(s) == s.take(i),
    decreases i,
{
    if i == 0 {
        if s.len() == 0 {
            assert(s.take(0) =~= s);
        } else {
            assert(s.take(0) =~= Seq::<char>::empty());
        }
    } else {
        let t = s.drop_first();
        assert forall|j: int| 0 <= j < i - 1 implies t[j] != '@' by {
            assert(t[j] == s[j + 1]);
        }
        lemma_local_part_prefix(t, i - 1);
        assert(s.take(i) =~= seq![s[0]] + t.take(i - 1));
    }
}

/// The user name that an address suggests: everything before the first `@`.
pub fn local_part_of(target: &str) -> (r: String)
    ensures
        r@ == local_part(target@),
{
    let n = target.unicode_len();
    let mut i: usize = 0;
    while i < n && target.get_char(i) != '@'
        invariant
            n == target@.len(),
            i <= n,
            forall|j: int| 0 <= j < i ==> target@[j] != '@',
        decreases n - i,
    {
        i = i + 1;
    }
    proof {
        lemma_local_part_prefix(target@, i as int);
    }
    String::from_str(target.substring_char(0, i))
}

/// What probe `index` yields for `target`.
pub open spec fn probe_spec(index: int, target: Seq<char>) -> ProbeOutcomeView {
    if index == 0 {
        ProbeOutcomeView {
            delay_secs: 10,
            finding: Some(
                FindingView {
                    finding_type: "email_leak"@,
                    details: seq![("source"@, "Simulated Breach DB"@), ("leaked_email"@, target)],
                    risk_level: RiskLevel::High,
                    source_link: Some("https://haveibeenpwned.com/"@),
                },
            ),
        }
    } else {
        ProbeOutcomeView {
            delay_secs: 5,
            finding: Some(
                FindingView {
                    finding_type: "social_media"@,
                    details: seq![("platform"@, "Twitter"@), ("username"@, local_part(target))],
                    risk_level: RiskLevel::Low,
                    source_link: None,
                },
            ),
        }
    }
}

fn entry(k: &str, v: String) -> (r: (String, String))
    ensures
        r.0@ == k@,
        r.1@ == v@,
{
    (String::from_str(k), v)
}

/// Runs probe `index` against `target`. Probes share nothing and may be run
/// in any number, one at a time, as the caller consumes them.
pub fn run_probe(index: usize, target: &str) -> (r: ProbeOutcome)
    requires
        index < PROBE_COUNT,
    ensures
        r@ == probe_spec(index as int, target@),
{
    if index == 0 {
        let details = vec![
            entry("source", String::from_str("Simulated Breach DB")),
            entry("leaked_email", String::from_str(target)),
        ];
        let f = Finding {
            finding_type: String::from_str("email_leak"),
            details,
            risk_level: RiskLevel::High,
            source_link: Some(String::from_str("https://haveibeenpwned.com/")),
        };
        assert(f@.details =~= probe_spec(0, target@).finding.unwrap().details);
        ProbeOutcome { delay_secs: 10, finding: Some(f) }
    } else {
        let details = vec![
            entry("platform", String::from_str("Twitter")),
            entry("username", local_part_of(target)),
        ];
        let f = Finding {
            finding_type: String::from_str("social_media"),
            details,
            risk_level: RiskLevel::Low,
            source_link: None,
        };
        assert(f@.details =~= probe_spec(1, target@).finding.unwrap().details);
        ProbeOutcome { delay_secs: 5, finding: Some(f) }
    }
}

/// Every probe's outcome for `target`, in probe order.
pub fn probe_outcomes(target: &str) -> (r: Vec<ProbeOutcome>)
    ensures
        r@.len() == PROBE_COUNT,
        forall|i: int| 0 <= i < PROBE_COUNT ==> #[trigger] r@[i]@ == probe_spec(i, target@),
{
    let mut r: Vec<ProbeOutcome> = Vec::new();
    let mut i: usize = 0;
    while i < PROBE_COUNT
        invariant
            i <= PROBE_COUNT,
            r@.len() == i,
            forall|j: int| 0 <= j < i ==> #[trigger] r@[j]@ == probe_spec(j, target@),
        decreases PROBE_COUNT - i,
    {
        r.push(run_probe(i, target));
        i = i + 1;
    }
    r
}

} // verus!
