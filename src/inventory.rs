use vstd::prelude::*;

use crate::json::{
    get, get_member, keyed, lemma_read_all_prefix, lemma_read_all_step, lookup, opt_view,
    optional_str, read_all, read_optional_str, JsonValue,
};
use crate::models::{Package, PackageView, UpdateStatus};

verus! {

/// What the status check reports for one package.
#[derive(Debug, Clone)]
pub struct OutdatedInfo {
    pub current: Option<String>,
    pub wanted: Option<String>,
    pub latest: Option<String>,
}

/// The declared dependencies of a manifest, as (name, range), in manifest order.
#[derive(Debug, Clone)]
pub struct Manifest {
    pub dependencies: Vec<(String, String)>,
    pub dev_dependencies: Vec<(String, String)>,
}

/// Why a manifest could not be read.
#[derive(Debug, Clone, Copy, PartialEq, Eq, Structural)]
pub enum ManifestError {
    NotFound,
    Unreadable,
    Malformed,
}

impl ManifestError {
    pub fn message(&self) -> (r: String)
        ensures
            r@ == match self {
                ManifestError::NotFound => "package.json not found"@,
                ManifestError::Unreadable => "Failed to read package.json"@,
                ManifestError::Malformed => "Failed to parse package.json"@,
            },
    {
        match self {
            ManifestError::NotFound => String::from_str("package.json not found"),
            ManifestError::Unreadable => String::from_str("Failed to read package.json"),
            ManifestError::Malformed => String::from_str("Failed to parse package.json"),
        }
    }
}

/// What was found where a project's manifest should be.
#[derive(Debug)]
pub enum ManifestSource {
    Missing,
    Unreadable,
    /// The file's text, parsed; `None` when it is not JSON.
    Text(Option<JsonValue>),
}

/// How the status check ended.
#[derive(Debug)]
pub enum StatusCheck {
    /// The tool exited with this code; its standard output, parsed (`None` when
    /// it is not JSON).
    Exited { code: Option<i32>, stdout: Option<JsonValue> },
    SpawnFailed,
    WaitFailed,
    TimedOut,
}

pub open spec fn string_value(v: JsonValue) -> Option<String> {
    match v {
        JsonValue::Str(s) => Some(s),
        _ => None,
    }
}

pub open spec fn string_reader() -> spec_fn(JsonValue) -> Option<String> {
    |v: JsonValue| string_value(v)
}

/// A dependency table of the manifest: absent or `null` is empty; otherwise it
/// must be an object whose values are all strings.
pub open spec fn dependency_table(doc: JsonValue, key: Seq<char>) -> Result<
    Seq<(String, String)>,
    (),
> {
    match get(doc, key) {
        None => Ok(Seq::empty()),
        Some(JsonValue::Null) => Ok(Seq::empty()),
        Some(JsonValue::Object(e)) => match read_all(e@, string_reader()) {
            Some(s) => Ok(s),
            None => Err(()),
        },
        _ => Err(()),
    }
}

/// The runtime and development tables of a manifest document.
pub open spec fn manifest_tables(doc: JsonValue) -> Result<
    (Seq<(String, String)>, Seq<(String, String)>),
    (),
> {
    match doc {
        JsonValue::Object(_) => match (
            dependency_table(doc, "dependencies"@),
            dependency_table(doc, "devDependencies"@),
        ) {
            (Ok(d), Ok(dd)) => Ok((d, dd)),
            _ => Err(()),
        },
        _ => Err(()),
    }
}

/// The outcome of reading a manifest.
pub open spec fn manifest_outcome(source: ManifestSource) -> Result<
    (Seq<(String, String)>, Seq<(String, String)>),
    ManifestError,
> {
    match source {
        ManifestSource::Missing => Err(ManifestError::NotFound),
        ManifestSource::Unreadable => Err(ManifestError::Unreadable),
        ManifestSource::Text(None) => Err(ManifestError::Malformed),
        ManifestSource::Text(Some(doc)) => match manifest_tables(doc) {
            Ok(t) => Ok(t),
            Err(_) => Err(ManifestError::Malformed),
        },
    }
}

fn read_string_members(entries: &Vec<(String, JsonValue)>) -> (r: Option<Vec<(String, String)>>)
    ensures
        match r {
            Some(v) => read_all(entries@, string_reader()) == Some(v@),
            None => read_all(entries@, string_reader()) is None,
        },
{
    let mut out: Vec<(String, String)> = Vec::new();
    let mut i: usize = 0;
    while i < entries.len()
        invariant
            i <= entries@.len(),
            read_all(entries@.subrange(0, i as int), string_reader()) == Some(out@),
        decreases entries@.len() - i,
    {
        proof {
            lemma_read_all_step(entries@, string_reader(), i as int);
        }
        match &entries[i].1 {
            JsonValue::Str(s) => {
                out.push((entries[i].0.clone(), s.clone()));
            },
            _ => {
                proof {
                    lemma_read_all_prefix(entries@, string_reader(), i + 1);
                }
                return None;
            },
        }
        i = i + 1;
    }
    assert(entries@.subrange(0, entries@.len() as int) =~= entries@);
    Some(out)
}

fn read_dependency_table(doc: &JsonValue, key: &str) -> (r: Result<Vec<(String, String)>, ()>)
    ensures
        match r {
            Ok(v) => dependency_table(*doc, key@) == Ok::<Seq<(String, String)>, ()>(v@),
            Err(_) => dependency_table(*doc, key@) is Err,
        },
{
    match get_member(doc, key) {
        None => Ok(Vec::new()),
        Some(JsonValue::Null) => Ok(Vec::new()),
        Some(JsonValue::Object(e)) => match read_string_members(e) {
            Some(v) => Ok(v),
            None => Err(()),
        },
        _ => Err(()),
    }
}

/// Reads a project's manifest into its two dependency tables. A missing file,
/// an unreadable one, and one that is not a manifest each have their error.
pub fn load_manifest(source: &ManifestSource) -> (r: Result<Manifest, ManifestError>)
    ensures
        match (r, manifest_outcome(*source)) {
            (Ok(m), Ok(t)) => m.dependencies@ == t.0 && m.dev_dependencies@ == t.1,
            (Err(e), Err(f)) => e == f,
            _ => false,
        },
{
    match source {
        ManifestSource::Missing => Err(ManifestError::NotFound),
        ManifestSource::Unreadable => Err(ManifestError::Unreadable),
        ManifestSource::Text(None) => Err(ManifestError::Malformed),
        ManifestSource::Text(Some(doc)) => {
            match doc {
                JsonValue::Object(_) => {},
                _ => {
                    return Err(ManifestError::Malformed);
                },
            }
            let d = read_dependency_table(doc, "dependencies");
            let dd = read_dependency_table(doc, "devDependencies");
            match (d, dd) {
                (Ok(dependencies), Ok(dev_dependencies)) => Ok(
                    Manifest { dependencies, dev_dependencies },
                ),
                _ => Err(ManifestError::Malformed),
            }
        },
    }
}

/// One entry of the status check's report: an object whose `current`,
/// `wanted` and `latest` are each absent, `null` or a string.
pub open spec fn outdated_entry(v: JsonValue) -> Option<OutdatedInfo> {
    match v {
        JsonValue::Object(_) => match (
            optional_str(get(v, "current"@)),
            optional_str(get(v, "wanted"@)),
            optional_str(get(v, "latest"@)),
        ) {
            (Ok(current), Ok(wanted), Ok(latest)) => Some(OutdatedInfo { current, wanted, latest }),
            _ => None,
        },
        _ => None,
    }
}

pub open spec fn outdated_reader() -> spec_fn(JsonValue) -> Option<OutdatedInfo> {
    |v: JsonValue| outdated_entry(v)
}

/// The status map that a status check yields: the tool's report when it exited
/// with 0 or 1 and printed an object of well-formed entries, and an empty map on
/// every other outcome.
pub open spec fn status_map(check: StatusCheck) -> Seq<(String, OutdatedInfo)> {
    match check {
        StatusCheck::Exited { code, stdout } => if code == Some(0i32) || code == Some(1i32) {
            match stdout {
                Some(JsonValue::Object(e)) => match read_all(e@, outdated_reader()) {
                    Some(s) => s,
                    None => Seq::empty(),
                },
                _ => Seq::empty(),
            }
        } else {
            Seq::empty()
        },
        _ => Seq::empty(),
    }
}

fn read_outdated_entry(v: &JsonValue) -> (r: Option<OutdatedInfo>)
    ensures
        r == outdated_entry(*v),
{
    match v {
        JsonValue::Object(_) => {
            let c = read_optional_str(get_member(v, "current"));
            let w = read_optional_str(get_member(v, "wanted"));
            let l = read_optional_str(get_member(v, "latest"));
            match (c, w, l) {
                (Ok(current), Ok(wanted), Ok(latest)) => Some(
                    OutdatedInfo { current, wanted, latest },
                ),
                _ => None,
            }
        },
        _ => None,
    }
}

fn read_outdated_members(entries: &Vec<(String, JsonValue)>) -> (r: Option<
    Vec<(String, OutdatedInfo)>,
>)
    ensures
        match r {
            Some(v) => read_all(entries@, outdated_reader()) == Some(v@),
            None => read_all(entries@, outdated_reader()) is None,
        },
{
    let mut out: Vec<(String, OutdatedInfo)> = Vec::new();
    let mut i: usize = 0;
    while i < entries.len()
        invariant
            i <= entries@.len(),
            read_all(entries@.subrange(0, i as int), outdated_reader()) == Some(out@),
        decreases entries@.len() - i,
    {
        proof {
            lemma_read_all_step(entries@, outdated_reader(), i as int);
        }
        match read_outdated_entry(&entries[i].1) {
            Some(info) => {
                out.push((entries[i].0.clone(), info));
            },
            None => {
                proof {
                    lemma_read_all_prefix(entries@, outdated_reader(), i + 1);
                }
                return None;
            },
        }
        i = i + 1;
    }
    assert(entries@.subrange(0, entries@.len() as int) =~= entries@);
    Some(out)
}

/// The status map of a status check. Every failure of the check degrades to an
/// empty map; none is an error.
pub fn outdated_from_check(check: &StatusCheck) -> (r: Vec<(String, OutdatedInfo)>)
    ensures
        r@ == status_map(*check),
{
    match check {
        StatusCheck::Exited { code, stdout } => {
            let ran = match code {
                Some(c) => *c == 0 || *c == 1,
                None => false,
            };
            if !ran {
                return Vec::new();
            }
            match stdout {
                Some(JsonValue::Object(e)) => match read_outdated_members(e) {
                    Some(v) => v,
                    None => Vec::new(),
                },
                _ => Vec::new(),
            }
        },
        _ => Vec::new(),
    }
}

/// The classification of a declared dependency, given whether the project's
/// dependency cache exists and what the status check reported for it.
pub open spec fn classify_spec(installed: bool, entry: Option<OutdatedInfo>) -> UpdateStatus {
    if !installed {
        UpdateStatus::NotInstalled
    } else {
        match entry {
            None => UpdateStatus::UpToDate,
            Some(o) => match (o.wanted, o.latest) {
                (Some(w), Some(l)) => if w@ != l@ {
                    UpdateStatus::Major
                } else if opt_view(o.current) != Some(w@) {
                    UpdateStatus::Minor
                } else {
                    UpdateStatus::UpToDate
                },
                _ => UpdateStatus::UpToDate,
            },
        }
    }
}

/// Classifies a declared dependency.
pub fn classify(installed: bool, entry: Option<&OutdatedInfo>) -> (r: UpdateStatus)
    ensures
        r == classify_spec(
            installed,
            match entry {
                Some(o) => Some(*o),
                None => None,
            },
        ),
{
    if !installed {
        return UpdateStatus::NotInstalled;
    }
    match entry {
        None => UpdateStatus::UpToDate,
        Some(o) => match (&o.wanted, &o.latest) {
            (Some(w), Some(l)) => {
                if *w != *l {
                    UpdateStatus::Major
                } else {
                    let same = match &o.current {
                        Some(c) => *c == *w,
                        None => false,
                    };
                    if !same {
                        UpdateStatus::Minor
                    } else {
                        UpdateStatus::UpToDate
                    }
                }
            },
            _ => UpdateStatus::UpToDate,
        },
    }
}

/// What `current_version` shows: a placeholder without a dependency cache; else
/// what the status check reports, falling back to the declared range.
pub open spec fn current_spec(installed: bool, range: Seq<char>, entry: Option<OutdatedInfo>) -> Seq<
    char,
> {
    if !installed {
        "unknown"@
    } else {
        match entry {
            Some(o) => match o.current {
                Some(c) => c@,
                None => range,
            },
            None => range,
        }
    }
}

pub open spec fn has_prefix(s: Seq<char>, p: Seq<char>) -> bool {
    p.len() <= s.len() && s.subrange(0, p.len() as int) == p
}

pub open spec fn has_suffix(s: Seq<char>, p: Seq<char>) -> bool {
    p.len() <= s.len() && s.subrange(s.len() - p.len(), s.len() as int) == p
}

/// A repository URL without a leading `git+` and without a trailing `.git`.
pub open spec fn normalized_repository(s: Seq<char>) -> Seq<char> {
    let a = if has_prefix(s, "git+"@) {
        s.subrange("git+"@.len() as int, s.len() as int)
    } else {
        s
    };
    if has_suffix(a, ".git"@) {
        a.subrange(0, a.len() - ".git"@.len())
    } else {
        a
    }
}

/// The `repository` field of an installed package's manifest: a string, or an
/// object with a string `url`; normalized.
pub open spec fn repository_of(r: Option<JsonValue>) -> Option<Seq<char>> {
    match r {
        Some(JsonValue::Str(s)) => Some(normalized_repository(s@)),
        Some(JsonValue::Object(e)) => match keyed(e@, "url"@) {
            Some(JsonValue::Str(s)) => Some(normalized_repository(s@)),
            _ => None,
        },
        _ => None,
    }
}

/// Repository and homepage read from an installed package's manifest. A
/// manifest whose `homepage` is neither absent, `null` nor a string gives
/// neither.
pub open spec fn links_of(meta: Option<JsonValue>) -> (Option<Seq<char>>, Option<Seq<char>>) {
    match meta {
        Some(doc) => match doc {
            JsonValue::Object(_) => match optional_str(get(doc, "homepage"@)) {
                Ok(h) => (repository_of(get(doc, "repository"@)), opt_view(h)),
                Err(_) => (None, None),
            },
            _ => (None, None),
        },
        None => (None, None),
    }
}

/// The inventory row of one declared dependency.
pub open spec fn package_of(
    name: String,
    range: String,
    is_dev: bool,
    installed: bool,
    outdated: Seq<(String, OutdatedInfo)>,
    metadata: Seq<(String, JsonValue)>,
) -> PackageView {
    let entry = keyed(outdated, name@);
    let links = links_of(keyed(metadata, name@));
    PackageView {
        name: name@,
        current_version: current_spec(installed, range@, entry),
        wanted_version: match entry {
            Some(o) => opt_view(o.wanted),
            None => None,
        },
        latest_version: match entry {
            Some(o) => opt_view(o.latest),
            None => None,
        },
        update_status: classify_spec(installed, entry),
        is_dev,
        repository: links.0,
        homepage: links.1,
    }
}

/// The rows of one dependency table, in its order.
pub open spec fn rows_of(
    deps: Seq<(String, String)>,
    is_dev: bool,
    installed: bool,
    outdated: Seq<(String, OutdatedInfo)>,
    metadata: Seq<(String, JsonValue)>,
) -> Seq<PackageView> {
    deps.map_values(
        |d: (String, String)| package_of(d.0, d.1, is_dev, installed, outdated, metadata),
    )
}

/// One row per declaration: runtime dependencies, then development ones, each
/// table in its order.
pub open spec fn declared_rows(
    manifest: Manifest,
    installed: bool,
    outdated: Seq<(String, OutdatedInfo)>,
    metadata: Seq<(String, JsonValue)>,
) -> Seq<PackageView> {
    rows_of(manifest.dependencies@, false, installed, outdated, metadata) + rows_of(
        manifest.dev_dependencies@,
        true,
        installed,
        outdated,
        metadata,
    )
}

/// Whether some row has this name.
pub open spec fn has_name(rows: Seq<PackageView>, name: Seq<char>) -> bool {
    exists|i: int| 0 <= i < rows.len() && (#[trigger] rows[i]).name == name
}

/// No two rows share a name.
pub open spec fn distinct_names(rows: Seq<PackageView>) -> bool {
    forall|i: int, j: int| 0 <= i < j < rows.len() ==> (#[trigger] rows[i]).name != (#[trigger] rows[j]).name
}

/// The rows that remain when each name keeps only its first row.
pub open spec fn first_per_name(rows: Seq<PackageView>) -> Seq<PackageView>
    decreases rows.len(),
{
    if rows.len() == 0 {
        Seq::empty()
    } else {
        let kept = first_per_name(rows.drop_last());
        if has_name(kept, rows.last().name) {
            kept
        } else {
            kept.push(rows.last())
        }
    }
}

/// The rows of an inventory before sorting: one per declared name, the first
/// declaration of it winning, so a runtime dependency wins over a development
/// one of the same name.
pub open spec fn inventory_rows(
    manifest: Manifest,
    installed: bool,
    outdated: Seq<(String, OutdatedInfo)>,
    metadata: Seq<(String, JsonValue)>,
) -> Seq<PackageView> {
    first_per_name(declared_rows(manifest, installed, outdated, metadata))
}

/// Keeping the first row of each name keeps every name, once.
pub proof fn lemma_first_per_name(rows: Seq<PackageView>)
    ensures
        distinct_names(first_per_name(rows)),
        forall|n: Seq<char>| has_name(first_per_name(rows), n) <==> has_name(rows, n),
        forall|k: int|
            0 <= k < first_per_name(rows).len() ==> rows.contains(#[trigger] first_per_name(rows)[k]),
    decreases rows.len(),
{
    if rows.len() > 0 {
        let init = rows.drop_last();
        lemma_first_per_name(init);
        let kept = first_per_name(init);
        assert forall|n: Seq<char>| has_name(first_per_name(rows), n) <==> has_name(rows, n) by {
            if has_name(rows, n) {
                let i = choose|i: int| 0 <= i < rows.len() && (#[trigger] rows[i]).name == n;
                if i < rows.len() - 1 {
                    assert(init[i] == rows[i]);
                    assert(has_name(init, n));
                    let j = choose|j: int| 0 <= j < kept.len() && (#[trigger] kept[j]).name == n;
                    if !has_name(kept, rows.last().name) {
                        assert(first_per_name(rows)[j] == kept[j]);
                    }
                } else if !has_name(kept, rows.last().name) {
                    assert(first_per_name(rows)[kept.len() as int] == rows.last());
                }
            }
            if has_name(first_per_name(rows), n) {
                let j = choose|j: int|
                    0 <= j < first_per_name(rows).len() && (#[trigger] first_per_name(rows)[j]).name
                        == n;
                if j < kept.len() {
                    assert(first_per_name(rows)[j] == kept[j]);
                    assert(has_name(kept, n));
                    assert(has_name(init, n));
                    let i = choose|i: int| 0 <= i < init.len() && (#[trigger] init[i]).name == n;
                    assert(rows[i] == init[i]);
                } else {
                    assert(rows[rows.len() - 1] == rows.last());
                }
            }
        }
        let f = first_per_name(rows);
        assert forall|k: int| 0 <= k < f.len() implies rows.contains(#[trigger] f[k]) by {
            if k < kept.len() {
                assert(f[k] == kept[k]);
                assert(init.contains(kept[k]));
                let i = choose|i: int| 0 <= i < init.len() && init[i] == kept[k];
                assert(rows[i] == init[i]);
            } else {
                assert(rows[rows.len() - 1] == f[k]);
            }
        }
        if !has_name(kept, rows.last().name) {
            let r = first_per_name(rows);
            assert forall|i: int, j: int| 0 <= i < j < r.len() implies (#[trigger] r[i]).name
                != (#[trigger] r[j]).name by {
                assert(r[i] == kept[i]);
                if j < kept.len() {
                    assert(r[j] == kept[j]);
                }
            }
        }
    }
}

/// Two arrangements of the same rows have the same names.
proof fn lemma_same_rows_same_names(a: Seq<PackageView>, b: Seq<PackageView>)
    requires
        a.to_multiset() == b.to_multiset(),
    ensures
        forall|n: Seq<char>| has_name(a, n) <==> has_name(b, n),
{
    broadcast use vstd::seq_lib::group_to_multiset_ensures;

    assert forall|n: Seq<char>| has_name(a, n) implies has_name(b, n) by {
        let i = choose|i: int| 0 <= i < a.len() && (#[trigger] a[i]).name == n;
        assert(a.contains(a[i]));
        vstd::seq_lib::to_multiset_contains(a, a[i]);
        vstd::seq_lib::to_multiset_contains(b, a[i]);
        assert(b.contains(a[i]));
        let j = choose|j: int| 0 <= j < b.len() && b[j] == a[i];
        assert(b[j].name == n);
    }
    assert forall|n: Seq<char>| has_name(b, n) implies has_name(a, n) by {
        let i = choose|i: int| 0 <= i < b.len() && (#[trigger] b[i]).name == n;
        assert(b.contains(b[i]));
        vstd::seq_lib::to_multiset_contains(a, b[i]);
        vstd::seq_lib::to_multiset_contains(b, b[i]);
        assert(a.contains(b[i]));
        let j = choose|j: int| 0 <= j < a.len() && a[j] == b[i];
        assert(a[j].name == n);
    }
}

pub open spec fn views(s: Seq<Package>) -> Seq<PackageView> {
    s.map_values(|p: Package| p@)
}

/// Byte-wise lexicographic order, the order of `str`.
pub open spec fn bytes_le(a: Seq<u8>, b: Seq<u8>) -> bool
    decreases a.len(),
{
    if a.len() == 0 {
        true
    } else if b.len() == 0 {
        false
    } else if a[0] != b[0] {
        a[0] < b[0]
    } else {
        bytes_le(a.drop_first(), b.drop_first())
    }
}

pub open spec fn name_bytes(p: PackageView) -> Seq<u8> {
    vstd::utf8::encode_utf8(p.name)
}

/// Rows in ascending, case-sensitive order of name.
pub open spec fn sorted_by_name(s: Seq<PackageView>) -> bool {
    forall|i: int| 0 < i < s.len() ==> bytes_le(name_bytes(s[i - 1]), name_bytes(#[trigger] s[i]))
}

proof fn lemma_bytes_le_total(a: Seq<u8>, b: Seq<u8>)
    ensures
        bytes_le(a, b) || bytes_le(b, a),
    decreases a.len(),
{
    if a.len() > 0 && b.len() > 0 && a[0] == b[0] {
        lemma_bytes_le_total(a.drop_first(), b.drop_first());
    }
}

fn prefix_of(s: &str, p: &str) -> (r: bool)
    ensures
        r == has_prefix(s@, p@),
{
    let n = p.unicode_len();
    if n > s.unicode_len() {
        return false;
    }
    let head = String::from_str(s.substring_char(0, n));
    head == String::from_str(p)
}

fn suffix_of(s: &str, p: &str) -> (r: bool)
    ensures
        r == has_suffix(s@, p@),
{
    let n = p.unicode_len();
    let m = s.unicode_len();
    if n > m {
        return false;
    }
    let tail = String::from_str(s.substring_char(m - n, m));
    tail == String::from_str(p)
}

/// Strips a leading `git+` and a trailing `.git` from a repository URL.
pub fn normalize_repository(url: &str) -> (r: String)
    ensures
        r@ == normalized_repository(url@),
{
    let m = url.unicode_len();
    let start: usize = if prefix_of(url, "git+") {
        "git+".unicode_len()
    } else {
        0
    };
    let a = url.substring_char(start, m);
    assert(start == 0 ==> a@ =~= url@);
    let k = a.unicode_len();
    if suffix_of(a, ".git") {
        String::from_str(a.substring_char(0, k - ".git".unicode_len()))
    } else {
        String::from_str(a)
    }
}

fn repository_field(r: Option<&JsonValue>) -> (out: Option<String>)
    ensures
        opt_view(out) == repository_of(
            match r {
                Some(v) => Some(*v),
                None => None,
            },
        ),
{
    match r {
        Some(JsonValue::Str(s)) => Some(normalize_repository(s.as_str())),
        Some(JsonValue::Object(e)) => match lookup(e, "url") {
            Some(JsonValue::Str(s)) => Some(normalize_repository(s.as_str())),
            _ => None,
        },
        _ => None,
    }
}

/// Repository and homepage of an installed package, from its own manifest.
pub fn package_links(meta: Option<&JsonValue>) -> (r: (Option<String>, Option<String>))
    ensures
        (opt_view(r.0), opt_view(r.1)) == links_of(
            match meta {
                Some(v) => Some(*v),
                None => None,
            },
        ),
{
    match meta {
        Some(doc) => match doc {
            JsonValue::Object(_) => match read_optional_str(get_member(doc, "homepage")) {
                Ok(h) => (repository_field(get_member(doc, "repository")), h),
                Err(_) => (None, None),
            },
            _ => (None, None),
        },
        None => (None, None),
    }
}

fn clone_opt(o: &Option<String>) -> (r: Option<String>)
    ensures
        r == *o,
{
    match o {
        Some(s) => Some(s.clone()),
        None => None,
    }
}

fn make_package(
    name: &String,
    range: &String,
    is_dev: bool,
    installed: bool,
    outdated: &Vec<(String, OutdatedInfo)>,
    metadata: &Vec<(String, JsonValue)>,
) -> (p: Package)
    ensures
        p@ == package_of(*name, *range, is_dev, installed, outdated@, metadata@),
{
    let entry = lookup(outdated, name.as_str());
    let current_version = if !installed {
        String::from_str("unknown")
    } else {
        match entry {
            Some(o) => match &o.current {
                Some(c) => c.clone(),
                None => range.clone(),
            },
            None => range.clone(),
        }
    };
    let (wanted_version, latest_version) = match entry {
        Some(o) => (clone_opt(&o.wanted), clone_opt(&o.latest)),
        None => (None, None),
    };
    let update_status = classify(installed, entry);
    let (repository, homepage) = package_links(lookup(metadata, name.as_str()));
    Package {
        name: name.clone(),
        current_version,
        wanted_version,
        latest_version,
        update_status,
        is_dev,
        repository,
        homepage,
    }
}

fn push_rows(
    out: &mut Vec<Package>,
    deps: &Vec<(String, String)>,
    is_dev: bool,
    installed: bool,
    outdated: &Vec<(String, OutdatedInfo)>,
    metadata: &Vec<(String, JsonValue)>,
)
    ensures
        views(final(out)@) == views(old(out)@) + rows_of(
            deps@,
            is_dev,
            installed,
            outdated@,
            metadata@,
        ),
{
    let ghost start = views(out@);
    let mut i: usize = 0;
    while i < deps.len()
        invariant
            i <= deps@.len(),
            views(out@) == start + rows_of(
                deps@.subrange(0, i as int),
                is_dev,
                installed,
                outdated@,
                metadata@,
            ),
        decreases deps@.len() - i,
    {
        let p = make_package(&deps[i].0, &deps[i].1, is_dev, installed, outdated, metadata);
        let ghost before = out@;
        out.push(p);
        proof {
            assert(deps@.subrange(0, i + 1) =~= deps@.subrange(0, i as int).push(deps@[i as int]));
            assert(views(out@) =~= views(before).push(p@));
            assert(rows_of(deps@.subrange(0, i + 1), is_dev, installed, outdated@, metadata@)
                =~= rows_of(deps@.subrange(0, i as int), is_dev, installed, outdated@, metadata@).push(
                p@));
            assert(views(out@) =~= start + rows_of(
                deps@.subrange(0, i + 1),
                is_dev,
                installed,
                outdated@,
                metadata@,
            ));
        }
        i = i + 1;
    }
    assert(deps@.subrange(0, deps@.len() as int) =~= deps@);
}

fn has_row_named(rows: &Vec<Package>, name: &String) -> (r: bool)
    ensures
        r == has_name(views(rows@), name@),
{
    let mut k: usize = 0;
    while k < rows.len()
        invariant
            k <= rows@.len(),
            forall|j: int| 0 <= j < k ==> rows@[j].name@ != name@,
        decreases rows@.len() - k,
    {
        if rows[k].name == *name {
            assert(views(rows@)[k as int].name == name@);
            return true;
        }
        k = k + 1;
    }
    assert forall|j: int| 0 <= j < views(rows@).len() implies (#[trigger] views(rows@)[j]).name
        != name@ by {
        assert(views(rows@)[j] == rows@[j]@);
    }
    false
}

/// Keeps the first row of each name, in order.
pub fn keep_first_per_name(rows: Vec<Package>) -> (r: Vec<Package>)
    ensures
        views(r@) == first_per_name(views(rows@)),
{
    let ghost all = views(rows@);
    let mut rest = rows;
    let mut out: Vec<Package> = Vec::new();
    let ghost mut i: int = 0;
    assert(all.subrange(0, 0) =~= Seq::<PackageView>::empty());
    assert(views(out@) =~= Seq::<PackageView>::empty());
    assert(views(rest@) =~= all.subrange(0, all.len() as int));
    while rest.len() > 0
        invariant
            0 <= i <= all.len(),
            views(out@) == first_per_name(all.subrange(0, i)),
            views(rest@) == all.subrange(i, all.len() as int),
        decreases rest@.len(),
    {
        let ghost rest0 = rest@;
        assert(views(rest0).len() == rest0.len());
        assert(i < all.len());
        let x = rest.remove(0);
        assert(views(rest0)[0] == x@);
        assert(all.subrange(i, all.len() as int)[0] == all[i]);
        assert(x@ == all[i]);
        assert forall|k: int| 0 <= k < views(rest@).len() implies #[trigger] views(rest@)[k]
            == all.subrange(i + 1, all.len() as int)[k] by {
            assert(views(rest@)[k] == views(rest0)[k + 1]);
            assert(all.subrange(i, all.len() as int)[k + 1] == all[i + 1 + k]);
        }
        assert(views(rest@) =~= all.subrange(i + 1, all.len() as int));
        assert(all.subrange(0, i + 1).drop_last() =~= all.subrange(0, i));
        assert(all.subrange(0, i + 1).last() == all[i]);
        if !has_row_named(&out, &x.name) {
            let ghost before = out@;
            out.push(x);
            assert(views(out@) =~= views(before).push(x@));
        }
        proof {
            i = i + 1;
        }
    }
    assert(all.subrange(0, i) =~= all);
    out
}

/// Whether `a` comes no later than `b` in the order of names.
pub fn name_le(a: &String, b: &String) -> (r: bool)
    ensures
        r == bytes_le(vstd::utf8::encode_utf8(a@), vstd::utf8::encode_utf8(b@)),
{
    let x = a.as_str().as_bytes();
    let y = b.as_str().as_bytes();
    let mut i: usize = 0;
    assert(x@.skip(0) =~= x@);
    assert(y@.skip(0) =~= y@);
    while i < x.len() && i < y.len() && x[i] == y[i]
        invariant
            i <= x@.len(),
            i <= y@.len(),
            x@ == vstd::utf8::encode_utf8(a@),
            y@ == vstd::utf8::encode_utf8(b@),
            bytes_le(x@, y@) == bytes_le(x@.skip(i as int), y@.skip(i as int)),
        decreases x@.len() - i,
    {
        assert(x@.skip(i as int).drop_first() =~= x@.skip(i + 1));
        assert(y@.skip(i as int).drop_first() =~= y@.skip(i + 1));
        i = i + 1;
    }
    if i == x.len() {
        true
    } else if i == y.len() {
        false
    } else {
        x[i] < y[i]
    }
}

/// Sorts rows by name. Rows with distinct names stay distinct.
pub fn sort_by_name(v: Vec<Package>) -> (r: Vec<Package>)
    ensures
        sorted_by_name(views(r@)),
        views(r@).to_multiset() == views(v@).to_multiset(),
        distinct_names(views(v@)) ==> distinct_names(views(r@)),
{
    broadcast use vstd::seq_lib::group_to_multiset_ensures;

    let mut rest = v;
    let mut out: Vec<Package> = Vec::new();
    assert(views(out@) =~= Seq::<PackageView>::empty());
    while rest.len() > 0
        invariant
            sorted_by_name(views(out@)),
            views(out@).to_multiset().add(views(rest@).to_multiset()) == views(
                v@,
            ).to_multiset(),
            distinct_names(views(v@)) ==> {
                &&& distinct_names(views(out@))
                &&& distinct_names(views(rest@))
                &&& forall|a: int, b: int|
                    0 <= a < views(out@).len() && 0 <= b < views(rest@).len() ==> (#[trigger] views(
                        out@,
                    )[a]).name != (#[trigger] views(rest@)[b]).name
            },
        decreases rest@.len(),
    {
        let ghost rest0 = rest@;
        let x = rest.remove(0);
        assert(views(rest@) =~= views(rest0).remove(0));
        let mut k: usize = 0;
        let mut stop = false;
        while !stop && k < out.len()
            invariant
                k <= out@.len(),
                stop ==> k < out@.len() && !bytes_le(name_bytes(out@[k as int]@), name_bytes(x@)),
                k > 0 ==> bytes_le(name_bytes(out@[k - 1]@), name_bytes(x@)),
            decreases (out@.len() - k) * 2 + if stop {
                0int
            } else {
                1int
            },
        {
            if name_le(&out[k].name, &x.name) {
                k = k + 1;
            } else {
                stop = true;
            }
        }
        let ghost out0 = out@;
        out.insert(k, x);
        proof {
            assert(views(out@) =~= views(out0).insert(k as int, x@));
            if k < out0.len() {
                lemma_bytes_le_total(name_bytes(out0[k as int]@), name_bytes(x@));
            }
            let s = views(out@);
            assert forall|i: int| 0 < i < s.len() implies bytes_le(
                name_bytes(s[i - 1]),
                name_bytes(#[trigger] s[i]),
            ) by {
                if i < k {
                    assert(s[i - 1] == views(out0)[i - 1]);
                    assert(s[i] == views(out0)[i]);
                } else if i == k {
                } else if i == k + 1 {
                } else {
                    assert(s[i - 1] == views(out0)[i - 2]);
                    assert(s[i] == views(out0)[i - 1]);
                }
            }
            vstd::seq_lib::to_multiset_insert(views(out0), k as int, x@);
            vstd::seq_lib::to_multiset_remove(views(rest0), 0);
            assert(views(rest0)[0] == x@);
            vstd::seq_lib::to_multiset_contains(views(rest0), x@);
            assert(views(rest0).to_multiset().count(x@) > 0);
            assert(views(out@).to_multiset().add(views(rest@).to_multiset()) =~= views(
                out0,
            ).to_multiset().add(views(rest0).to_multiset()));
            if distinct_names(views(v@)) {
                let o = views(out@);
                let o0 = views(out0);
                let r0 = views(rest0);
                let r = views(rest@);
                assert forall|a: int, b: int| 0 <= a < b < o.len() implies (#[trigger] o[a]).name
                    != (#[trigger] o[b]).name by {
                    if a < k && b < k {
                        assert(o[a] == o0[a] && o[b] == o0[b]);
                    } else if a < k && b == k {
                        assert(o[a] == o0[a] && r0[0] == x@);
                    } else if a < k {
                        assert(o[a] == o0[a] && o[b] == o0[b - 1]);
                    } else if a == k {
                        assert(o[b] == o0[b - 1] && r0[0] == x@);
                    } else {
                        assert(o[a] == o0[a - 1] && o[b] == o0[b - 1]);
                    }
                }
                assert forall|a: int, b: int| 0 <= a < b < r.len() implies (#[trigger] r[a]).name
                    != (#[trigger] r[b]).name by {
                    assert(r[a] == r0[a + 1] && r[b] == r0[b + 1]);
                }
                assert forall|a: int, b: int| 0 <= a < o.len() && 0 <= b < r.len() implies (
                #[trigger] o[a]).name != (#[trigger] r[b]).name by {
                    assert(r[b] == r0[b + 1]);
                    if a < k {
                        assert(o[a] == o0[a]);
                    } else if a == k {
                        assert(r0[0] == x@);
                    } else {
                        assert(o[a] == o0[a - 1]);
                    }
                }
            }
        }
    }
    assert(views(rest@) =~= Seq::<PackageView>::empty());
    out
}

/// The inventory of a project: one row per declared name, sorted by name. A
/// name declared more than once keeps its first row, so a runtime dependency
/// wins over a development one.
pub fn build_inventory(
    manifest: &Manifest,
    installed: bool,
    outdated: &Vec<(String, OutdatedInfo)>,
    metadata: &Vec<(String, JsonValue)>,
) -> (r: Vec<Package>)
    ensures
        sorted_by_name(views(r@)),
        distinct_names(views(r@)),
        views(r@).to_multiset() == inventory_rows(
            *manifest,
            installed,
            outdated@,
            metadata@,
        ).to_multiset(),
        forall|n: Seq<char>|
            has_name(views(r@), n) <==> has_name(
                declared_rows(*manifest, installed, outdated@, metadata@),
                n,
            ),
{
    let mut rows: Vec<Package> = Vec::new();
    assert(views(rows@) =~= Seq::<PackageView>::empty());
    push_rows(&mut rows, &manifest.dependencies, false, installed, outdated, metadata);
    push_rows(&mut rows, &manifest.dev_dependencies, true, installed, outdated, metadata);
    assert(views(rows@) =~= declared_rows(*manifest, installed, outdated@, metadata@));
    let kept = keep_first_per_name(rows);
    proof {
        lemma_first_per_name(views(rows@));
    }
    let r = sort_by_name(kept);
    proof {
        lemma_same_rows_same_names(views(r@), views(kept@));
    }
    r
}

/// The inventory of a project whose manifest has been read: the status check's
/// outcome gives the status map (an empty one on any failure), and `metadata`
/// holds the manifests of installed packages by name.
pub fn get_packages(
    manifest: &Manifest,
    installed: bool,
    check: &StatusCheck,
    metadata: &Vec<(String, JsonValue)>,
) -> (r: Vec<Package>)
    ensures
        sorted_by_name(views(r@)),
        distinct_names(views(r@)),
        views(r@).to_multiset() == inventory_rows(
            *manifest,
            installed,
            status_map(*check),
            metadata@,
        ).to_multiset(),
        forall|n: Seq<char>|
            has_name(views(r@), n) <==> has_name(
                declared_rows(*manifest, installed, status_map(*check), metadata@),
                n,
            ),
{
    let outdated = outdated_from_check(check);
    build_inventory(manifest, installed, &outdated, metadata)
}

/// Without a dependency cache every row is `NotInstalled`, whatever the status
/// check reported.
pub proof fn lemma_no_cache_not_installed(
    manifest: Manifest,
    outdated: Seq<(String, OutdatedInfo)>,
    metadata: Seq<(String, JsonValue)>,
)
    ensures
        forall|i: int|
            0 <= i < inventory_rows(manifest, false, outdated, metadata).len() ==> (#[trigger] inventory_rows(
                manifest,
                false,
                outdated,
                metadata,
            )[i]).update_status == UpdateStatus::NotInstalled,
{
    let rows = declared_rows(manifest, false, outdated, metadata);
    lemma_first_per_name(rows);
    let f = inventory_rows(manifest, false, outdated, metadata);
    assert forall|i: int| 0 <= i < f.len() implies (#[trigger] f[i]).update_status
        == UpdateStatus::NotInstalled by {
        assert(rows.contains(f[i]));
        let k = choose|k: int| 0 <= k < rows.len() && rows[k] == f[i];
        let d = manifest.dependencies@.len();
        if k < d {
            assert(rows[k] == rows_of(manifest.dependencies@, false, false, outdated, metadata)[k]);
        } else {
            assert(rows[k] == rows_of(manifest.dev_dependencies@, true, false, outdated, metadata)[k
                - d]);
        }
    }
}

/// With the cache present, a report whose current, wanted and latest versions
/// agree classifies as `UpToDate`.
pub proof fn lemma_all_equal_up_to_date(o: OutdatedInfo)
    requires
        o.current is Some,
        o.wanted is Some,
        o.latest is Some,
        opt_view(o.current) == opt_view(o.wanted),
        opt_view(o.wanted) == opt_view(o.latest),
    ensures
        classify_spec(true, Some(o)) == UpdateStatus::UpToDate,
{
}

/// With the cache present, a wanted version that differs from the latest one
/// classifies as `Major`.
pub proof fn lemma_wanted_behind_latest_major(o: OutdatedInfo)
    requires
        o.wanted is Some,
        o.latest is Some,
        opt_view(o.wanted) != opt_view(o.latest),
    ensures
        classify_spec(true, Some(o)) == UpdateStatus::Major,
{
}

/// With the cache present, wanted equal to latest but current behind it
/// classifies as `Minor`.
pub proof fn lemma_current_behind_wanted_minor(o: OutdatedInfo)
    requires
        o.wanted is Some,
        o.latest is Some,
        opt_view(o.wanted) == opt_view(o.latest),
        opt_view(o.current) != opt_view(o.wanted),
    ensures
        classify_spec(true, Some(o)) == UpdateStatus::Minor,
{
}

/// A status check that timed out gives the rows that an empty status map gives.
pub proof fn lemma_timeout_as_empty(
    manifest: Manifest,
    installed: bool,
    metadata: Seq<(String, JsonValue)>,
)
    ensures
        inventory_rows(manifest, installed, status_map(StatusCheck::TimedOut), metadata)
            == inventory_rows(manifest, installed, Seq::empty(), metadata),
{
}

pub open spec fn demo_row(
    name: Seq<char>,
    current: Seq<char>,
    wanted: Seq<char>,
    latest: Seq<char>,
    status: UpdateStatus,
    is_dev: bool,
    homepage: Option<Seq<char>>,
    repository: Option<Seq<char>>,
) -> PackageView {
    PackageView {
        name,
        current_version: current,
        wanted_version: Some(wanted),
        latest_version: Some(latest),
        update_status: status,
        is_dev,
        repository,
        homepage,
    }
}

/// The fixed demonstration inventory.
pub open spec fn mock_rows() -> Seq<PackageView> {
    seq![
        demo_row("react"@, "18.2.0"@, "18.2.0"@, "18.3.0"@, UpdateStatus::UpToDate, false,
            Some("https://reactjs.org"@), Some("https://github.com/facebook/react"@)),
        demo_row("typescript"@, "4.9.5"@, "4.9.5"@, "5.3.3"@, UpdateStatus::Major, true,
            Some("https://www.typescriptlang.org"@), Some("https://github.com/microsoft/TypeScript"@)),
        demo_row("vite"@, "5.0.0"@, "5.0.4"@, "5.1.0"@, UpdateStatus::Minor, true, None,
            Some("https://github.com/vitejs/vite"@)),
        demo_row("axios"@, "0.21.1"@, "0.21.4"@, "1.6.0"@, UpdateStatus::Major, false, None, None),
    ]
}

fn demo_package(
    name: &str,
    current: &str,
    wanted: &str,
    latest: &str,
    update_status: UpdateStatus,
    is_dev: bool,
    homepage: Option<&str>,
    repository: Option<&str>,
) -> (p: Package)
    ensures
        p@ == demo_row(
            name@,
            current@,
            wanted@,
            latest@,
            update_status,
            is_dev,
            match homepage {
                Some(h) => Some(h@),
                None => None,
            },
            match repository {
                Some(r) => Some(r@),
                None => None,
            },
        ),
{
    Package {
        name: String::from_str(name),
        current_version: String::from_str(current),
        wanted_version: Some(String::from_str(wanted)),
        latest_version: Some(String::from_str(latest)),
        update_status,
        is_dev,
        repository: match repository {
            Some(r) => Some(String::from_str(r)),
            None => None,
        },
        homepage: match homepage {
            Some(h) => Some(String::from_str(h)),
            None => None,
        },
    }
}

/// A fixed inventory for demonstrating the interface without a project.
pub fn get_mock_packages() -> (r: Vec<Package>)
    ensures
        views(r@) == mock_rows(),
{
    let mut r: Vec<Package> = Vec::new();
    r.push(
        demo_package(
            "react",
            "18.2.0",
            "18.2.0",
            "18.3.0",
            UpdateStatus::UpToDate,
            false,
            Some("https://reactjs.org"),
            Some("https://github.com/facebook/react"),
        ),
    );
    r.push(
        demo_package(
            "typescript",
            "4.9.5",
            "4.9.5",
            "5.3.3",
            UpdateStatus::Major,
            true,
            Some("https://www.typescriptlang.org"),
            Some("https://github.com/microsoft/TypeScript"),
        ),
    );
    r.push(
        demo_package(
            "vite",
            "5.0.0",
            "5.0.4",
            "5.1.0",
            UpdateStatus::Minor,
            true,
            None,
            Some("https://github.com/vitejs/vite"),
        ),
    );
    r.push(
        demo_package(
            "axios",
            "0.21.1",
            "0.21.4",
            "1.6.0",
            UpdateStatus::Major,
            false,
            None,
            None,
        ),
    );
    assert(views(r@) =~= mock_rows());
    r
}

} // verus!
