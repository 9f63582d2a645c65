use pkg_inventory::audit::{
    audit_precondition, parse_audit, run_audit, AuditError, AuditRun, AuditVulnerabilityCounts,
};
use pkg_inventory::json::JsonValue;

fn s(x: &str) -> String {
    x.to_string()
}

fn jstr(x: &str) -> JsonValue {
    JsonValue::Str(s(x))
}

fn obj(members: Vec<(&str, JsonValue)>) -> JsonValue {
    JsonValue::Object(members.into_iter().map(|(k, v)| (s(k), v)).collect())
}

fn metadata(info: i128, high: i128) -> JsonValue {
    obj(vec![(
        "vulnerabilities",
        obj(vec![
            ("info", JsonValue::Int(info)),
            ("low", JsonValue::Int(0)),
            ("moderate", JsonValue::Int(0)),
            ("high", JsonValue::Int(high)),
            ("critical", JsonValue::Int(0)),
            ("total", JsonValue::Int(info + high)),
        ]),
    )])
}

fn advisories() -> JsonValue {
    obj(vec![(
        "1179",
        obj(vec![
            ("title", jstr("Prototype Pollution")),
            ("module_name", jstr("minimist")),
            ("severity", jstr("low")),
            ("vulnerable_versions", jstr("<0.2.1")),
            ("id", JsonValue::Int(1179)),
        ]),
    )])
}

#[test]
fn variant_a_leaves_out_info_but_counts_it() {
    let doc = obj(vec![
        (
            "vulnerabilities",
            obj(vec![
                (
                    "axios",
                    obj(vec![
                        ("severity", jstr("high")),
                        ("range", jstr("<0.21.2")),
                        ("via", JsonValue::Array(vec![obj(vec![("title", jstr("SSRF"))])])),
                    ]),
                ),
                (
                    "debug",
                    obj(vec![
                        ("severity", jstr("info")),
                        ("range", jstr("*")),
                        ("via", JsonValue::Array(vec![])),
                    ]),
                ),
            ]),
        ),
        ("metadata", metadata(1, 1)),
    ]);
    let r = parse_audit(&doc, &s("")).unwrap();
    assert_eq!(r.vulnerable_packages.len(), 1);
    let v = &r.vulnerable_packages[0];
    assert_eq!((v.name.as_str(), v.severity.as_str()), ("axios", "high"));
    assert_eq!((v.title.as_str(), v.range.as_str()), ("SSRF", "<0.21.2"));
    assert_eq!(
        r.counts,
        AuditVulnerabilityCounts { info: 1, low: 0, moderate: 0, high: 1, critical: 0, total: 2 }
    );
}

#[test]
fn variant_a_default_fields() {
    let doc = obj(vec![
        (
            "vulnerabilities",
            obj(vec![
                ("a", obj(vec![("via", JsonValue::Array(vec![jstr("b")]))])),
                ("b", obj(vec![("severity", jstr("low")), ("via", jstr("x"))])),
                ("c", obj(vec![("severity", jstr("moderate")), ("via", JsonValue::Array(vec![]))])),
                ("d", obj(vec![("severity", jstr("critical")), ("via", JsonValue::Array(vec![obj(vec![])]))])),
            ]),
        ),
        ("metadata", metadata(0, 0)),
    ]);
    let r = parse_audit(&doc, &s("")).unwrap();
    let titles: Vec<&str> = r.vulnerable_packages.iter().map(|v| v.title.as_str()).collect();
    assert_eq!(
        titles,
        vec!["Direct/Transitive Vulnerability", "Vulnerability", "Vulnerability", "Vulnerability"]
    );
    assert_eq!(r.vulnerable_packages[0].severity, "unknown");
    assert_eq!(r.vulnerable_packages[0].range, "");
}

#[test]
fn variant_b_advisories() {
    let doc = obj(vec![("advisories", advisories()), ("metadata", metadata(0, 0))]);
    let r = parse_audit(&doc, &s("")).unwrap();
    assert_eq!(r.vulnerable_packages.len(), 1);
    let v = &r.vulnerable_packages[0];
    assert_eq!(v.name, "minimist");
    assert_eq!(v.severity, "low");
    assert_eq!(v.title, "Prototype Pollution");
    assert_eq!(v.range, "<0.2.1");
}

#[test]
fn variant_a_preferred_over_b() {
    let doc = obj(vec![
        ("advisories", advisories()),
        ("vulnerabilities", obj(vec![])),
        ("metadata", metadata(0, 0)),
    ]);
    let r = parse_audit(&doc, &s("")).unwrap();
    assert!(r.vulnerable_packages.is_empty());
    let doc = obj(vec![
        ("advisories", advisories()),
        ("vulnerabilities", JsonValue::Null),
        ("metadata", metadata(0, 0)),
    ]);
    assert_eq!(parse_audit(&doc, &s("")).unwrap().vulnerable_packages.len(), 1);
}

#[test]
fn neither_variant_is_an_error() {
    let doc = obj(vec![("metadata", metadata(0, 0))]);
    assert_eq!(parse_audit(&doc, &s("warn")).unwrap_err(), AuditError::NoFindings(s("warn")));
}

#[test]
fn unreadable_reports_carry_stderr() {
    let doc = obj(vec![("vulnerabilities", obj(vec![]))]);
    assert_eq!(parse_audit(&doc, &s("boom")).unwrap_err(), AuditError::ParseFailed(s("boom")));
    let negative = obj(vec![("vulnerabilities", obj(vec![])), ("metadata", metadata(-1, 0))]);
    assert_eq!(parse_audit(&negative, &s("")).unwrap_err(), AuditError::ParseFailed(s("")));
    let bad_adv = obj(vec![
        ("advisories", obj(vec![("1", obj(vec![("title", jstr("t"))]))])),
        ("metadata", metadata(0, 0)),
    ]);
    assert_eq!(parse_audit(&bad_adv, &s("e")).unwrap_err(), AuditError::ParseFailed(s("e")));
    let run = AuditRun::Exited { stdout: None, stderr: s("not json") };
    assert_eq!(run_audit(&run).unwrap_err(), AuditError::ParseFailed(s("not json")));
}

#[test]
fn transport_failures_are_reported() {
    assert_eq!(run_audit(&AuditRun::TimedOut).unwrap_err(), AuditError::TimedOut);
    assert_eq!(
        run_audit(&AuditRun::SpawnFailed(s("no npm"))).unwrap_err(),
        AuditError::SpawnFailed(s("no npm"))
    );
    assert_eq!(
        run_audit(&AuditRun::WaitFailed(s("lost"))).unwrap_err(),
        AuditError::WaitFailed(s("lost"))
    );
    assert_eq!(audit_precondition(false), Err(AuditError::ProjectNotFound));
    assert_eq!(audit_precondition(true), Ok(()));
}

#[test]
fn exited_run_is_parsed() {
    let doc = obj(vec![("advisories", advisories()), ("metadata", metadata(0, 2))]);
    let r = run_audit(&AuditRun::Exited { stdout: Some(doc), stderr: s("") }).unwrap();
    assert_eq!(r.counts.high, 2);
    assert_eq!(r.counts.total, 2);
    assert_eq!(r.vulnerable_packages[0].name, "minimist");
}
