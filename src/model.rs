use vstd::prelude::*;

use crate::risk::RiskLevel;
use crate::status::JobStatus;

verus! {

/// A flat key/value document, as a sequence of views.
pub open spec fn entries_view(d: Seq<(String, String)>) -> Seq<(Seq<char>, Seq<char>)> {
    d.map_values(|p: (String, String)| (p.0@, p.1@))
}

pub open spec fn link_view(l: Option<String>) -> Option<Seq<char>> {
    match l {
        Some(s) => Some(s@),
        None => None,
    }
}

/// What a probe discovered, before it is stored.
#[derive(Debug)]
pub struct Finding {
    pub finding_type: String,
    pub details: Vec<(String, String)>,
    pub risk_level: RiskLevel,
    pub source_link: Option<String>,
}

pub struct FindingView {
    pub finding_type: Seq<char>,
    pub details: Seq<(Seq<char>, Seq<char>)>,
    pub risk_level: RiskLevel,
    pub source_link: Option<Seq<char>>,
}

impl View for Finding {
    type V = FindingView;

    open spec fn view(&self) -> FindingView {
        FindingView {
            finding_type: self.finding_type@,
            details: entries_view(self.details@),
            risk_level: self.risk_level,
            source_link: link_view(self.source_link),
        }
    }
}

pub fn copy_entries(d: &Vec<(String, String)>) -> (r: Vec<(String, String)>)
    ensures
        entries_view(r@) == entries_view(d@),
{
    let mut r: Vec<(String, String)> = Vec::new();
    let mut i: usize = 0;
    while i < d.len()
        invariant
            i <= d@.len(),
            entries_view(r@) == entries_view(d@.take(i as int)),
        decreases d@.len() - i,
    {
        let k = d[i].0.clone();
        let v = d[i].1.clone();
        let ghost before = r@;
        r.push((k, v));
        assert(d@.take(i + 1) =~= d@.take(i as int).push(d@[i as int]));
        assert(entries_view(r@) =~= entries_view(before).push((d@[i as int].0@, d@[i as int].1@)));
        assert(entries_view(r@) =~= entries_view(d@.take(i + 1)));
        i = i + 1;
    }
    assert(d@.take(i as int) =~= d@);
    r
}

pub fn copy_link(l: &Option<String>) -> (r: Option<String>)
    ensures
        link_view(r) == link_view(*l),
{
    match l {
        Some(s) => Some(s.clone()),
        None => None,
    }
}

impl Finding {
    pub fn copy(&self) -> (r: Finding)
        ensures
            r@ == self@,
    {
        Finding {
            finding_type: self.finding_type.clone(),
            details: copy_entries(&self.details),
            risk_level: self.risk_level,
            source_link: copy_link(&self.source_link),
        }
    }
}

/// A scan job as stored: who asked for it, where it stands, and when it was
/// created and last changed (logical timestamps).
#[derive(Clone, Copy, Debug, PartialEq, Eq, Structural)]
pub struct Scan {
    pub id: u128,
    pub user_id: u128,
    pub status: JobStatus,
    pub created_at: u64,
    pub updated_at: u64,
}

/// A stored finding of a scan.
#[derive(Debug)]
pub struct ScanResult {
    pub id: u128,
    pub scan_id: u128,
    pub finding_type: String,
    pub details: Vec<(String, String)>,
    pub risk_level: RiskLevel,
    pub source_link: Option<String>,
    pub found_at: u64,
}

pub struct ScanResultView {
    pub id: u128,
    pub scan_id: u128,
    pub finding: FindingView,
    pub found_at: u64,
}

impl View for ScanResult {
    type V = ScanResultView;

    open spec fn view(&self) -> ScanResultView {
        ScanResultView {
            id: self.id,
            scan_id: self.scan_id,
            finding: FindingView {
                finding_type: self.finding_type@,
                details: entries_view(self.details@),
                risk_level: self.risk_level,
                source_link: link_view(self.source_link),
            },
            found_at: self.found_at,
        }
    }
}

pub open spec fn result_views(s: Seq<ScanResult>) -> Seq<ScanResultView> {
    s.map_values(|r: ScanResult| r@)
}

impl ScanResult {
    pub fn copy(&self) -> (r: ScanResult)
        ensures
            r@ == self@,
    {
        ScanResult {
            id: self.id,
            scan_id: self.scan_id,
            finding_type: self.finding_type.clone(),
            details: copy_entries(&self.details),
            risk_level: self.risk_level,
            source_link: copy_link(&self.source_link),
            found_at: self.found_at,
        }
    }

    /// The stored finding without its identity and timestamp.
    pub fn finding(&self) -> (r: Finding)
        ensures
            r@ == self@.finding,
    {
        Finding {
            finding_type: self.finding_type.clone(),
            details: copy_entries(&self.details),
            risk_level: self.risk_level,
            source_link: copy_link(&self.source_link),
        }
    }
}

} // verus!
