use vstd::prelude::*;

use crate::json::{
    get, get_member, get_str, get_string, keyed, lemma_read_all_prefix, lemma_read_all_step,
    lookup, read_all, JsonValue,
};

verus! {

/// Findings per severity, as the audit tool summarises them.
#[derive(Debug, Clone, Copy, PartialEq, Eq, Structural)]
pub struct AuditVulnerabilityCounts {
    pub info: u32,
    pub low: u32,
    pub moderate: u32,
    pub high: u32,
    pub critical: u32,
    pub total: u32,
}

/// One package with a known vulnerability.
#[derive(Debug, Clone)]
pub struct VulnerablePackage {
    pub name: String,
    pub severity: String,
    pub title: String,
    pub range: String,
}

pub struct VulnerablePackageView {
    pub name: Seq<char>,
    pub severity: Seq<char>,
    pub title: Seq<char>,
    pub range: Seq<char>,
}

impl View for VulnerablePackage {
    type V = VulnerablePackageView;

    open spec fn view(&self) -> VulnerablePackageView {
        VulnerablePackageView {
            name: self.name@,
            severity: self.severity@,
            title: self.title@,
            range: self.range@,
        }
    }
}

/// The outcome of one audit.
#[derive(Debug, Clone)]
pub struct AuditResult {
    pub counts: AuditVulnerabilityCounts,
    pub vulnerable_packages: Vec<VulnerablePackage>,
}

pub struct AuditResultView {
    pub counts: AuditVulnerabilityCounts,
    pub vulnerable_packages: Seq<VulnerablePackageView>,
}

impl View for AuditResult {
    type V = AuditResultView;

    open spec fn view(&self) -> AuditResultView {
        AuditResultView {
            counts: self.counts,
            vulnerable_packages: self.vulnerable_packages@.map_values(|p: VulnerablePackage| p@),
        }
    }
}

/// Why an audit gave no result.
#[derive(Debug, Clone, PartialEq, Eq)]
pub enum AuditError {
    ProjectNotFound,
    SpawnFailed(String),
    WaitFailed(String),
    TimedOut,
    /// The report could not be read; the tool's standard error.
    ParseFailed(String),
    /// The report holds neither findings section; the tool's standard error.
    NoFindings(String),
}

/// How the audit process ended.
#[derive(Debug)]
pub enum AuditRun {
    SpawnFailed(String),
    WaitFailed(String),
    TimedOut,
    /// The process exited; its standard output parsed (`None` when it is not
    /// JSON), and its standard error.
    Exited { stdout: Option<JsonValue>, stderr: String },
}

pub open spec fn count_value(v: Option<JsonValue>) -> Option<u32> {
    match v {
        Some(JsonValue::Int(n)) => if 0 <= n <= u32::MAX {
            Some(n as u32)
        } else {
            None
        },
        _ => None,
    }
}

/// The severity summary: an object with all six counts.
pub open spec fn counts_of(v: JsonValue) -> Option<AuditVulnerabilityCounts> {
    match v {
        JsonValue::Object(_) => match (
            count_value(get(v, "info"@)),
            count_value(get(v, "low"@)),
            count_value(get(v, "moderate"@)),
            count_value(get(v, "high"@)),
            count_value(get(v, "critical"@)),
            count_value(get(v, "total"@)),
        ) {
            (Some(info), Some(low), Some(moderate), Some(high), Some(critical), Some(total)) => Some(
                AuditVulnerabilityCounts { info, low, moderate, high, critical, total },
            ),
            _ => None,
        },
        _ => None,
    }
}

/// `metadata.vulnerabilities` of a report.
pub open spec fn summary_of(doc: JsonValue) -> Option<AuditVulnerabilityCounts> {
    match get(doc, "metadata"@) {
        Some(m) => match m {
            JsonValue::Object(_) => match get(m, "vulnerabilities"@) {
                Some(c) => counts_of(c),
                None => None,
            },
            _ => None,
        },
        None => None,
    }
}

pub open spec fn required_str(v: Option<JsonValue>) -> Option<String> {
    match v {
        Some(JsonValue::Str(s)) => Some(s),
        _ => None,
    }
}

/// One advisory of the older report: all four fields are required strings.
pub open spec fn advisory_of(v: JsonValue) -> Option<VulnerablePackage> {
    match v {
        JsonValue::Object(_) => match (
            required_str(get(v, "title"@)),
            required_str(get(v, "module_name"@)),
            required_str(get(v, "severity"@)),
            required_str(get(v, "vulnerable_versions"@)),
        ) {
            (Some(title), Some(name), Some(severity), Some(range)) => Some(
                VulnerablePackage { name, severity, title, range },
            ),
            _ => None,
        },
        _ => None,
    }
}

pub open spec fn advisory_reader() -> spec_fn(JsonValue) -> Option<VulnerablePackage> {
    |v: JsonValue| advisory_of(v)
}

/// The `advisories` section: `Ok(None)` when absent or `null`, the advisories
/// when it is an object of well-formed ones, and `Err` otherwise.
pub open spec fn advisories_of(doc: JsonValue) -> Result<
    Option<Seq<(String, VulnerablePackage)>>,
    (),
> {
    match get(doc, "advisories"@) {
        None => Ok(None),
        Some(JsonValue::Null) => Ok(None),
        Some(JsonValue::Object(e)) => match read_all(e@, advisory_reader()) {
            Some(s) => Ok(Some(s)),
            None => Err(()),
        },
        _ => Err(()),
    }
}

/// The `vulnerabilities` section, when present and not `null`.
pub open spec fn vulnerabilities_of(doc: JsonValue) -> Option<JsonValue> {
    match get(doc, "vulnerabilities"@) {
        None => None,
        Some(JsonValue::Null) => None,
        Some(v) => Some(v),
    }
}

/// The description of a finding of the newer report, from its `via` list.
pub open spec fn title_of(via: Option<JsonValue>) -> Seq<char> {
    match via {
        Some(JsonValue::Array(a)) => if a@.len() > 0 {
            match a@[0] {
                JsonValue::Object(e) => match keyed(e@, "title"@) {
                    Some(JsonValue::Str(t)) => t@,
                    _ => "Vulnerability"@,
                },
                _ => "Direct/Transitive Vulnerability"@,
            }
        } else {
            "Vulnerability"@
        },
        _ => "Vulnerability"@,
    }
}

/// One finding of the newer report.
pub open spec fn finding_of(name: String, detail: JsonValue) -> VulnerablePackageView {
    VulnerablePackageView {
        name: name@,
        severity: match get_str(detail, "severity"@) {
            Some(s) => s@,
            None => "unknown"@,
        },
        title: title_of(get(detail, "via"@)),
        range: match get_str(detail, "range"@) {
            Some(s) => s@,
            None => ""@,
        },
    }
}

/// The findings of the newer report, in order, leaving out those of severity
/// `info`.
pub open spec fn findings(entries: Seq<(String, JsonValue)>) -> Seq<VulnerablePackageView>
    decreases entries.len(),
{
    if entries.len() == 0 {
        Seq::empty()
    } else {
        let rest = findings(entries.drop_last());
        let f = finding_of(entries.last().0, entries.last().1);
        if f.severity == "info"@ {
            rest
        } else {
            rest.push(f)
        }
    }
}

/// What a report yields: the summary counts always come from its metadata; the
/// list comes from the newer `vulnerabilities` section when present (only an
/// object lists anything), else from the older `advisories` section.
pub open spec fn audit_report(doc: JsonValue, stderr: String) -> Result<
    AuditResultView,
    AuditError,
> {
    match (doc, summary_of(doc), advisories_of(doc)) {
        (JsonValue::Object(_), Some(counts), Ok(adv)) => match vulnerabilities_of(doc) {
            Some(v) => Ok(
                AuditResultView {
                    counts,
                    vulnerable_packages: match v {
                        JsonValue::Object(e) => findings(e@),
                        _ => Seq::empty(),
                    },
                },
            ),
            None => match adv {
                Some(a) => Ok(
                    AuditResultView {
                        counts,
                        vulnerable_packages: a.map_values(
                            |x: (String, VulnerablePackage)| x.1@,
                        ),
                    },
                ),
                None => Err(AuditError::NoFindings(stderr)),
            },
        },
        _ => Err(AuditError::ParseFailed(stderr)),
    }
}

/// What an audit run yields.
pub open spec fn audit_outcome(run: AuditRun) -> Result<AuditResultView, AuditError> {
    match run {
        AuditRun::SpawnFailed(e) => Err(AuditError::SpawnFailed(e)),
        AuditRun::WaitFailed(e) => Err(AuditError::WaitFailed(e)),
        AuditRun::TimedOut => Err(AuditError::TimedOut),
        AuditRun::Exited { stdout, stderr } => match stdout {
            Some(doc) => audit_report(doc, stderr),
            None => Err(AuditError::ParseFailed(stderr)),
        },
    }
}

fn read_count(v: Option<&JsonValue>) -> (r: Option<u32>)
    ensures
        r == count_value(
            match v {
                Some(x) => Some(*x),
                None => None,
            },
        ),
{
    match v {
        Some(JsonValue::Int(n)) => {
            if 0 <= *n && *n <= 4294967295 {
                Some(*n as u32)
            } else {
                None
            }
        },
        _ => None,
    }
}

fn read_summary(doc: &JsonValue) -> (r: Option<AuditVulnerabilityCounts>)
    ensures
        r == summary_of(*doc),
{
    let m = match get_member(doc, "metadata") {
        Some(m) => m,
        None => {
            return None;
        },
    };
    match m {
        JsonValue::Object(_) => {},
        _ => {
            return None;
        },
    }
    let c = match get_member(m, "vulnerabilities") {
        Some(c) => c,
        None => {
            return None;
        },
    };
    match c {
        JsonValue::Object(_) => {},
        _ => {
            return None;
        },
    }
    let info = read_count(get_member(c, "info"));
    let low = read_count(get_member(c, "low"));
    let moderate = read_count(get_member(c, "moderate"));
    let high = read_count(get_member(c, "high"));
    let critical = read_count(get_member(c, "critical"));
    let total = read_count(get_member(c, "total"));
    match (info, low, moderate, high, critical, total) {
        (Some(info), Some(low), Some(moderate), Some(high), Some(critical), Some(total)) => Some(
            AuditVulnerabilityCounts { info, low, moderate, high, critical, total },
        ),
        _ => None,
    }
}

fn read_required_str(v: Option<&JsonValue>) -> (r: Option<String>)
    ensures
        r == required_str(
            match v {
                Some(x) => Some(*x),
                None => None,
            },
        ),
{
    match v {
        Some(JsonValue::Str(s)) => Some(s.clone()),
        _ => None,
    }
}

fn read_advisory(v: &JsonValue) -> (r: Option<VulnerablePackage>)
    ensures
        r == advisory_of(*v),
{
    match v {
        JsonValue::Object(_) => {
            let title = read_required_str(get_member(v, "title"));
            let name = read_required_str(get_member(v, "module_name"));
            let severity = read_required_str(get_member(v, "severity"));
            let range = read_required_str(get_member(v, "vulnerable_versions"));
            match (title, name, severity, range) {
                (Some(title), Some(name), Some(severity), Some(range)) => Some(
                    VulnerablePackage { name, severity, title, range },
                ),
                _ => None,
            }
        },
        _ => None,
    }
}

fn read_advisories(doc: &JsonValue) -> (r: Result<Option<Vec<(String, VulnerablePackage)>>, ()>)
    ensures
        match (r, advisories_of(*doc)) {
            (Ok(Some(v)), Ok(Some(s))) => v@ == s,
            (Ok(None), Ok(None)) => true,
            (Err(_), Err(_)) => true,
            _ => false,
        },
{
    let entries = match get_member(doc, "advisories") {
        None => {
            return Ok(None);
        },
        Some(JsonValue::Null) => {
            return Ok(None);
        },
        Some(JsonValue::Object(e)) => e,
        _ => {
            return Err(());
        },
    };
    let mut out: Vec<(String, VulnerablePackage)> = Vec::new();
    let mut i: usize = 0;
    while i < entries.len()
        invariant
            i <= entries@.len(),
            get(*doc, "advisories"@) == Some(JsonValue::Object(*entries)),
            read_all(entries@.subrange(0, i as int), advisory_reader()) == Some(out@),
        decreases entries@.len() - i,
    {
        proof {
            lemma_read_all_step(entries@, advisory_reader(), i as int);
        }
        match read_advisory(&entries[i].1) {
            Some(a) => {
                out.push((entries[i].0.clone(), a));
            },
            None => {
                proof {
                    lemma_read_all_prefix(entries@, advisory_reader(), i + 1);
                }
                return Err(());
            },
        }
        i = i + 1;
    }
    assert(entries@.subrange(0, entries@.len() as int) =~= entries@);
    Ok(Some(out))
}

fn read_title(via: Option<&JsonValue>) -> (r: String)
    ensures
        r@ == title_of(
            match via {
                Some(x) => Some(*x),
                None => None,
            },
        ),
{
    match via {
        Some(JsonValue::Array(a)) => {
            if a.len() > 0 {
                match &a[0] {
                    JsonValue::Object(e) => match lookup(e, "title") {
                        Some(JsonValue::Str(t)) => t.clone(),
                        _ => String::from_str("Vulnerability"),
                    },
                    _ => String::from_str("Direct/Transitive Vulnerability"),
                }
            } else {
                String::from_str("Vulnerability")
            }
        },
        _ => String::from_str("Vulnerability"),
    }
}

fn read_finding(name: &String, detail: &JsonValue) -> (r: VulnerablePackage)
    ensures
        r@ == finding_of(*name, *detail),
{
    let severity = match get_string(detail, "severity") {
        Some(s) => s,
        None => String::from_str("unknown"),
    };
    let range = match get_string(detail, "range") {
        Some(s) => s,
        None => String::from_str(""),
    };
    VulnerablePackage {
        name: name.clone(),
        severity,
        title: read_title(get_member(detail, "via")),
        range,
    }
}

fn read_findings(entries: &Vec<(String, JsonValue)>) -> (r: Vec<VulnerablePackage>)
    ensures
        r@.map_values(|p: VulnerablePackage| p@) == findings(entries@),
{
    let info = String::from_str("info");
    let mut out: Vec<VulnerablePackage> = Vec::new();
    let mut i: usize = 0;
    while i < entries.len()
        invariant
            i <= entries@.len(),
            info@ == "info"@,
            out@.map_values(|p: VulnerablePackage| p@) == findings(
                entries@.subrange(0, i as int),
            ),
        decreases entries@.len() - i,
    {
        let f = read_finding(&entries[i].0, &entries[i].1);
        let ghost before = out@;
        proof {
            assert(entries@.subrange(0, i + 1).drop_last() =~= entries@.subrange(0, i as int));
        }
        if f.severity != info {
            out.push(f);
            assert(out@.map_values(|p: VulnerablePackage| p@) =~= before.map_values(
                |p: VulnerablePackage| p@,
            ).push(f@));
        }
        i = i + 1;
    }
    assert(entries@.subrange(0, entries@.len() as int) =~= entries@);
    out
}

fn listed(adv: &Vec<(String, VulnerablePackage)>) -> (r: Vec<VulnerablePackage>)
    ensures
        r@.map_values(|p: VulnerablePackage| p@) == adv@.map_values(
            |x: (String, VulnerablePackage)| x.1@,
        ),
{
    let mut out: Vec<VulnerablePackage> = Vec::new();
    let mut i: usize = 0;
    while i < adv.len()
        invariant
            i <= adv@.len(),
            out@.map_values(|p: VulnerablePackage| p@) == adv@.subrange(0, i as int).map_values(
                |x: (String, VulnerablePackage)| x.1@,
            ),
        decreases adv@.len() - i,
    {
        let a = &adv[i].1;
        let p = VulnerablePackage {
            name: a.name.clone(),
            severity: a.severity.clone(),
            title: a.title.clone(),
            range: a.range.clone(),
        };
        let ghost before = out@;
        out.push(p);
        assert(p@ == adv@[i as int].1@);
        assert(adv@.subrange(0, i + 1) =~= adv@.subrange(0, i as int).push(adv@[i as int]));
        assert(out@.map_values(|p: VulnerablePackage| p@) =~= before.map_values(
            |p: VulnerablePackage| p@,
        ).push(p@));
        assert(out@.map_values(|p: VulnerablePackage| p@) =~= adv@.subrange(
            0,
            i + 1,
        ).map_values(|x: (String, VulnerablePackage)| x.1@));
        i = i + 1;
    }
    assert(adv@.subrange(0, adv@.len() as int) =~= adv@);
    out
}

/// Reads an audit report. The counts come from the report's own summary, never
/// from the list. A report that cannot be read fails with the tool's standard
/// error; one with neither findings section fails with `NoFindings`; both carry the
/// tool's standard error.
pub fn parse_audit(doc: &JsonValue, stderr: &String) -> (r: Result<AuditResult, AuditError>)
    ensures
        match (r, audit_report(*doc, *stderr)) {
            (Ok(a), Ok(v)) => a@ == v,
            (Err(e), Err(f)) => e == f,
            _ => false,
        },
{
    match doc {
        JsonValue::Object(_) => {},
        _ => {
            return Err(AuditError::ParseFailed(stderr.clone()));
        },
    }
    let counts = match read_summary(doc) {
        Some(c) => c,
        None => {
            return Err(AuditError::ParseFailed(stderr.clone()));
        },
    };
    let adv = match read_advisories(doc) {
        Ok(a) => a,
        Err(_) => {
            return Err(AuditError::ParseFailed(stderr.clone()));
        },
    };
    match get_member(doc, "vulnerabilities") {
        Some(v) => {
            match v {
                JsonValue::Null => {},
                JsonValue::Object(e) => {
                    return Ok(AuditResult { counts, vulnerable_packages: read_findings(e) });
                },
                _ => {
                    let r = AuditResult { counts, vulnerable_packages: Vec::new() };
                    assert(r@.vulnerable_packages =~= Seq::<VulnerablePackageView>::empty());
                    return Ok(r);
                },
            }
        },
        None => {},
    }
    match adv {
        Some(a) => Ok(AuditResult { counts, vulnerable_packages: listed(&a) }),
        None => Err(AuditError::NoFindings(stderr.clone())),
    }
}

/// Fails unless the project directory exists; checked before the audit runs.
pub fn audit_precondition(project_exists: bool) -> (r: Result<(), AuditError>)
    ensures
        r == if project_exists {
            Ok::<(), AuditError>(())
        } else {
            Err(AuditError::ProjectNotFound)
        },
{
    if project_exists {
        Ok(())
    } else {
        Err(AuditError::ProjectNotFound)
    }
}

/// The result of an audit run. Unlike the status check, a failed, timed-out or
/// unreadable run is an error, never an empty result.
pub fn run_audit(run: &AuditRun) -> (r: Result<AuditResult, AuditError>)
    ensures
        match (r, audit_outcome(*run)) {
            (Ok(a), Ok(v)) => a@ == v,
            (Err(e), Err(f)) => e == f,
            _ => false,
        },
{
    match run {
        AuditRun::SpawnFailed(e) => Err(AuditError::SpawnFailed(e.clone())),
        AuditRun::WaitFailed(e) => Err(AuditError::WaitFailed(e.clone())),
        AuditRun::TimedOut => Err(AuditError::TimedOut),
        AuditRun::Exited { stdout, stderr } => match stdout {
            Some(doc) => parse_audit(doc, stderr),
            None => Err(AuditError::ParseFailed(stderr.clone())),
        },
    }
}

/// The flattened list of the newer report never holds a finding of severity
/// `info`, and every other finding is in it (their number is that of the entries
/// less those of severity `info`).
pub proof fn lemma_findings_skip_info(entries: Seq<(String, JsonValue)>)
    ensures
        forall|k: int|
            0 <= k < findings(entries).len() ==> (#[trigger] findings(entries)[k]).severity
                != "info"@,
        findings(entries).len() == entries.len() - info_count(entries),
    decreases entries.len(),
{
    if entries.len() > 0 {
        lemma_findings_skip_info(entries.drop_last());
    }
}

/// How many entries of the newer report have severity `info`.
pub open spec fn info_count(entries: Seq<(String, JsonValue)>) -> int
    decreases entries.len(),
{
    if entries.len() == 0 {
        0
    } else if finding_of(entries.last().0, entries.last().1).severity == "info"@ {
        info_count(entries.drop_last()) + 1
    } else {
        info_count(entries.drop_last())
    }
}

} // verus!
