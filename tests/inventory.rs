use pkg_inventory::inventory::{
    build_inventory, classify, get_mock_packages, get_packages, load_manifest, name_le,
    normalize_repository, outdated_from_check, package_links, sort_by_name, Manifest,
    ManifestError, ManifestSource, OutdatedInfo, StatusCheck,
};
use pkg_inventory::json::JsonValue;
use pkg_inventory::models::{Package, UpdateStatus};

fn s(x: &str) -> String {
    x.to_string()
}

fn jstr(x: &str) -> JsonValue {
    JsonValue::Str(s(x))
}

fn obj(members: Vec<(&str, JsonValue)>) -> JsonValue {
    JsonValue::Object(members.into_iter().map(|(k, v)| (s(k), v)).collect())
}

fn info(current: Option<&str>, wanted: Option<&str>, latest: Option<&str>) -> OutdatedInfo {
    OutdatedInfo {
        current: current.map(s),
        wanted: wanted.map(s),
        latest: latest.map(s),
    }
}

fn manifest(deps: Vec<(&str, &str)>, dev: Vec<(&str, &str)>) -> Manifest {
    Manifest {
        dependencies: deps.into_iter().map(|(a, b)| (s(a), s(b))).collect(),
        dev_dependencies: dev.into_iter().map(|(a, b)| (s(a), s(b))).collect(),
    }
}

fn names(pkgs: &[Package]) -> Vec<String> {
    pkgs.iter().map(|p| p.name.clone()).collect()
}

#[test]
fn classify_without_cache_is_not_installed() {
    let o = info(Some("1.0.0"), Some("1.2.0"), Some("2.0.0"));
    assert_eq!(classify(false, Some(&o)), UpdateStatus::NotInstalled);
    assert_eq!(classify(false, None), UpdateStatus::NotInstalled);
}

#[test]
fn classify_all_equal_is_up_to_date() {
    let o = info(Some("1.0.0"), Some("1.0.0"), Some("1.0.0"));
    assert_eq!(classify(true, Some(&o)), UpdateStatus::UpToDate);
}

#[test]
fn classify_wanted_behind_latest_is_major() {
    let o = info(Some("1.0.0"), Some("1.0.0"), Some("2.0.0"));
    assert_eq!(classify(true, Some(&o)), UpdateStatus::Major);
    let o = info(None, Some("1.4.0"), Some("2.0.0"));
    assert_eq!(classify(true, Some(&o)), UpdateStatus::Major);
}

#[test]
fn classify_current_behind_wanted_is_minor() {
    let o = info(Some("1.0.0"), Some("1.4.0"), Some("1.4.0"));
    assert_eq!(classify(true, Some(&o)), UpdateStatus::Minor);
    let o = info(None, Some("1.4.0"), Some("1.4.0"));
    assert_eq!(classify(true, Some(&o)), UpdateStatus::Minor);
}

#[test]
fn classify_incomplete_report_is_up_to_date() {
    assert_eq!(classify(true, None), UpdateStatus::UpToDate);
    let o = info(Some("1.0.0"), None, Some("2.0.0"));
    assert_eq!(classify(true, Some(&o)), UpdateStatus::UpToDate);
}

#[test]
fn manifest_errors() {
    assert_eq!(load_manifest(&ManifestSource::Missing).unwrap_err(), ManifestError::NotFound);
    assert_eq!(
        load_manifest(&ManifestSource::Unreadable).unwrap_err(),
        ManifestError::Unreadable
    );
    assert_eq!(
        load_manifest(&ManifestSource::Text(None)).unwrap_err(),
        ManifestError::Malformed
    );
    let bad = obj(vec![("dependencies", obj(vec![("react", JsonValue::Int(18))]))]);
    assert_eq!(
        load_manifest(&ManifestSource::Text(Some(bad))).unwrap_err(),
        ManifestError::Malformed
    );
    let not_object = JsonValue::Array(vec![]);
    assert_eq!(
        load_manifest(&ManifestSource::Text(Some(not_object))).unwrap_err(),
        ManifestError::Malformed
    );
    assert_eq!(ManifestError::NotFound.message(), "package.json not found");
}

#[test]
fn manifest_tables_read() {
    let doc = obj(vec![
        ("name", jstr("app")),
        ("dependencies", obj(vec![("react", jstr("^18.2.0")), ("axios", jstr("^0.21.1"))])),
        ("devDependencies", JsonValue::Null),
        ("scripts", obj(vec![("build", jstr("vite build"))])),
    ]);
    let m = load_manifest(&ManifestSource::Text(Some(doc))).unwrap();
    assert_eq!(m.dependencies, vec![(s("react"), s("^18.2.0")), (s("axios"), s("^0.21.1"))]);
    assert!(m.dev_dependencies.is_empty());
}

#[test]
fn status_map_accepts_exit_zero_and_one_only() {
    let report = || obj(vec![(
        "react",
        obj(vec![
            ("current", jstr("18.2.0")),
            ("wanted", jstr("18.2.0")),
            ("latest", jstr("18.3.0")),
            ("location", jstr("node_modules/react")),
        ]),
    )]);
    let one = outdated_from_check(&StatusCheck::Exited { code: Some(1), stdout: Some(report()) });
    assert_eq!(one.len(), 1);
    assert_eq!(one[0].0, "react");
    assert_eq!(one[0].1.latest.as_deref(), Some("18.3.0"));
    let zero = outdated_from_check(&StatusCheck::Exited { code: Some(0), stdout: Some(report()) });
    assert_eq!(zero.len(), 1);
    let two = outdated_from_check(&StatusCheck::Exited { code: Some(2), stdout: Some(report()) });
    assert!(two.is_empty());
    let killed = outdated_from_check(&StatusCheck::Exited { code: None, stdout: Some(report()) });
    assert!(killed.is_empty());
    assert!(outdated_from_check(&StatusCheck::TimedOut).is_empty());
    assert!(outdated_from_check(&StatusCheck::SpawnFailed).is_empty());
    assert!(outdated_from_check(&StatusCheck::WaitFailed).is_empty());
    let garbled = obj(vec![("react", obj(vec![("current", JsonValue::Int(1))]))]);
    assert!(outdated_from_check(&StatusCheck::Exited { code: Some(1), stdout: Some(garbled) })
        .is_empty());
    assert!(outdated_from_check(&StatusCheck::Exited { code: Some(1), stdout: None }).is_empty());
}

#[test]
fn timed_out_check_matches_empty_report() {
    let m = manifest(vec![("react", "^18.2.0"), ("axios", "^0.21.1")], vec![("vite", "^5.0.0")]);
    let timed_out = get_packages(&m, true, &StatusCheck::TimedOut, &vec![]);
    let empty = get_packages(
        &m,
        true,
        &StatusCheck::Exited { code: Some(0), stdout: Some(JsonValue::Object(vec![])) },
        &vec![],
    );
    assert_eq!(format!("{:?}", timed_out), format!("{:?}", empty));
    assert_eq!(names(&timed_out), vec![s("axios"), s("react"), s("vite")]);
    assert!(timed_out.iter().all(|p| p.update_status == UpdateStatus::UpToDate));
    assert_eq!(timed_out[1].current_version, "^18.2.0");
}

#[test]
fn inventory_rows_classified_and_sorted() {
    let m = manifest(
        vec![("zeta", "^1.0.0"), ("Alpha", "^2.0.0"), ("beta", "^3.0.0")],
        vec![("typescript", "^4.9.5")],
    );
    let outdated = vec![
        (s("zeta"), info(Some("1.0.0"), Some("1.0.0"), Some("2.0.0"))),
        (s("beta"), info(Some("3.0.0"), Some("3.1.0"), Some("3.1.0"))),
        (s("typescript"), info(Some("4.9.5"), Some("4.9.5"), Some("4.9.5"))),
    ];
    let rows = build_inventory(&m, true, &outdated, &vec![]);
    assert_eq!(names(&rows), vec![s("Alpha"), s("beta"), s("typescript"), s("zeta")]);
    assert_eq!(rows[0].update_status, UpdateStatus::UpToDate);
    assert_eq!(rows[0].current_version, "^2.0.0");
    assert_eq!(rows[1].update_status, UpdateStatus::Minor);
    assert_eq!(rows[1].wanted_version.as_deref(), Some("3.1.0"));
    assert_eq!(rows[2].update_status, UpdateStatus::UpToDate);
    assert!(rows[2].is_dev);
    assert_eq!(rows[3].update_status, UpdateStatus::Major);
    assert_eq!(rows[3].latest_version.as_deref(), Some("2.0.0"));
    assert!(!rows[3].is_dev);
}

#[test]
fn inventory_without_cache_keeps_every_dependency() {
    let m = manifest(vec![("react", "^18.2.0")], vec![("vite", "^5.0.0")]);
    let outdated = vec![(s("react"), info(Some("18.2.0"), Some("18.2.0"), Some("18.3.0")))];
    let rows = build_inventory(&m, false, &outdated, &vec![]);
    assert_eq!(names(&rows), vec![s("react"), s("vite")]);
    for p in &rows {
        assert_eq!(p.update_status, UpdateStatus::NotInstalled);
        assert_eq!(p.current_version, "unknown");
    }
    assert_eq!(rows[0].latest_version.as_deref(), Some("18.3.0"));
}

#[test]
fn inventory_reads_links_of_installed_packages() {
    let m = manifest(vec![("react", "^18.2.0"), ("lodash", "^4.17.21")], vec![]);
    let meta = vec![
        (
            s("react"),
            obj(vec![
                ("homepage", jstr("https://reactjs.org")),
                (
                    "repository",
                    obj(vec![
                        ("type", jstr("git")),
                        ("url", jstr("git+https://github.com/facebook/react.git")),
                    ]),
                ),
            ]),
        ),
        (s("lodash"), obj(vec![("repository", jstr("lodash/lodash"))])),
    ];
    let rows = build_inventory(&m, true, &vec![], &meta);
    assert_eq!(rows[0].name, "lodash");
    assert_eq!(rows[0].repository.as_deref(), Some("lodash/lodash"));
    assert_eq!(rows[0].homepage, None);
    assert_eq!(rows[1].repository.as_deref(), Some("https://github.com/facebook/react"));
    assert_eq!(rows[1].homepage.as_deref(), Some("https://reactjs.org"));
}

#[test]
fn repository_normalization() {
    assert_eq!(normalize_repository("git+https://github.com/a/b.git"), "https://github.com/a/b");
    assert_eq!(normalize_repository("https://github.com/a/b"), "https://github.com/a/b");
    assert_eq!(normalize_repository("git+ssh://git@host/x.github.io"), "ssh://git@host/x.github.io");
    assert_eq!(normalize_repository(".git"), "");
    assert_eq!(normalize_repository(""), "");
}

#[test]
fn package_links_edge_cases() {
    let bad_homepage = obj(vec![
        ("homepage", JsonValue::Int(3)),
        ("repository", jstr("https://github.com/a/b")),
    ]);
    assert_eq!(package_links(Some(&bad_homepage)), (None, None));
    let array_repo = obj(vec![("repository", JsonValue::Array(vec![]))]);
    assert_eq!(package_links(Some(&array_repo)), (None, None));
    let null_repo = obj(vec![("repository", JsonValue::Null), ("homepage", jstr("h"))]);
    assert_eq!(package_links(Some(&null_repo)), (None, Some(s("h"))));
    assert_eq!(package_links(None), (None, None));
}

#[test]
fn name_order_is_bytewise() {
    assert!(name_le(&s("Zed"), &s("alpha")));
    assert!(!name_le(&s("alpha"), &s("Zed")));
    assert!(name_le(&s("ab"), &s("abc")));
    assert!(name_le(&s("ab"), &s("ab")));
    assert!(!name_le(&s("b"), &s("ab")));
}

#[test]
fn sorting_keeps_every_row() {
    let rows = get_mock_packages();
    let sorted = sort_by_name(rows);
    assert_eq!(names(&sorted), vec![s("axios"), s("react"), s("typescript"), s("vite")]);
}

#[test]
fn mock_inventory() {
    let rows = get_mock_packages();
    assert_eq!(names(&rows), vec![s("react"), s("typescript"), s("vite"), s("axios")]);
    assert_eq!(rows[1].update_status, UpdateStatus::Major);
    assert_eq!(rows[2].update_status, UpdateStatus::Minor);
    assert_eq!(rows[3].repository, None);
    assert_eq!(rows[0].homepage.as_deref(), Some("https://reactjs.org"));
}

#[test]
fn name_in_both_tables_listed_once_as_runtime() {
    let m = manifest(
        vec![("react", "^18.2.0"), ("axios", "^1.0.0"), ("react", "^17.0.0")],
        vec![("react", "^18.0.0"), ("vite", "^5.0.0")],
    );
    let rows = build_inventory(&m, true, &vec![], &vec![]);
    assert_eq!(names(&rows), vec![s("axios"), s("react"), s("vite")]);
    assert!(!rows[1].is_dev);
    assert_eq!(rows[1].current_version, "^18.2.0");
    assert!(rows[2].is_dev);
}
