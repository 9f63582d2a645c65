use vstd::prelude::*;

use crate::json::{get_str, get_string, JsonValue};
use crate::models::{Project, ProjectView};

verus! {

/// How many levels below the root a scan looks.
pub const MAX_DEPTH: usize = 5;

/// Directory names whose subtrees a scan never opens: dependency caches,
/// version-control metadata, build output and framework caches.
pub open spec fn is_ignored(name: Seq<char>) -> bool {
    name == "node_modules"@ || name == ".git"@ || name == "dist"@ || name == "build"@ || name
        == ".cache"@ || name == "coverage"@ || name == "target"@ || name == ".next"@ || name
        == ".nuxt"@
}

/// Whether a scan must not descend into a directory of this name.
pub fn is_ignored_dir(name: &str) -> (r: bool)
    ensures
        r == is_ignored(name@),
{
    let n = String::from_str(name);
    n == String::from_str("node_modules") || n == String::from_str(".git") || n
        == String::from_str("dist") || n == String::from_str("build") || n == String::from_str(
        ".cache",
    ) || n == String::from_str("coverage") || n == String::from_str("target") || n
        == String::from_str(".next") || n == String::from_str(".nuxt")
}

/// A directory holding a manifest, as the walk met it.
#[derive(Debug)]
pub struct ProjectCandidate {
    /// The names of the directories from the root (its own name first) down to
    /// this one.
    pub components: Vec<String>,
    /// The directory's symlink-resolved path.
    pub canonical_path: String,
    /// The last name of the canonical path, when it has one.
    pub dir_name: Option<String>,
    /// The manifest, parsed; `None` when it could not be read or is not JSON.
    pub manifest: Option<JsonValue>,
    pub is_writable: bool,
    pub has_node_modules: bool,
}

/// Why a scan could not start.
#[derive(Debug, Clone, Copy, PartialEq, Eq, Structural)]
pub enum ScanError {
    InvalidRoot,
}

impl ScanError {
    pub fn message(&self) -> (r: String)
        ensures
            r@ == "Invalid directory path"@,
    {
        String::from_str("Invalid directory path")
    }
}

/// A directory that the walk reaches: within the depth bound, and with no
/// ignored name on its way from the root.
pub open spec fn admitted(c: ProjectCandidate) -> bool {
    &&& c.components@.len() <= MAX_DEPTH + 1
    &&& forall|i: int| 0 <= i < c.components@.len() ==> !is_ignored(#[trigger] c.components@[i]@)
}

/// The canonical paths of the admitted candidates, in order.
pub open spec fn seen_paths(cands: Seq<ProjectCandidate>) -> Seq<Seq<char>>
    decreases cands.len(),
{
    if cands.len() == 0 {
        Seq::empty()
    } else if admitted(cands.last()) {
        seen_paths(cands.drop_last()).push(cands.last().canonical_path@)
    } else {
        seen_paths(cands.drop_last())
    }
}

/// The project that a manifest describes: its name, else the directory's name,
/// else "Unknown"; its version, else "0.0.0". An unreadable manifest gives none.
pub open spec fn project_of(c: ProjectCandidate) -> Option<ProjectView> {
    match c.manifest {
        None => None,
        Some(doc) => Some(
            ProjectView {
                name: match get_str(doc, "name"@) {
                    Some(n) => n@,
                    None => match c.dir_name {
                        Some(d) => d@,
                        None => "Unknown"@,
                    },
                },
                path: c.canonical_path@,
                version: match get_str(doc, "version"@) {
                    Some(v) => v@,
                    None => "0.0.0"@,
                },
                is_writable: c.is_writable,
                has_node_modules: c.has_node_modules,
            },
        ),
    }
}

/// The projects a walk yields: each admitted candidate whose canonical path was
/// not seen before and whose manifest could be read, in walk order.
pub open spec fn scan_rows(cands: Seq<ProjectCandidate>) -> Seq<ProjectView>
    decreases cands.len(),
{
    if cands.len() == 0 {
        Seq::empty()
    } else {
        let rest = scan_rows(cands.drop_last());
        let c = cands.last();
        if admitted(c) && !seen_paths(cands.drop_last()).contains(c.canonical_path@) {
            match project_of(c) {
                Some(p) => rest.push(p),
                None => rest,
            }
        } else {
            rest
        }
    }
}

pub open spec fn project_views(s: Seq<Project>) -> Seq<ProjectView> {
    s.map_values(|p: Project| p@)
}

fn is_admitted(c: &ProjectCandidate) -> (r: bool)
    ensures
        r == admitted(*c),
{
    if c.components.len() > MAX_DEPTH + 1 {
        return false;
    }
    let mut i: usize = 0;
    while i < c.components.len()
        invariant
            i <= c.components@.len(),
            forall|j: int| 0 <= j < i ==> !is_ignored(#[trigger] c.components@[j]@),
        decreases c.components@.len() - i,
    {
        if is_ignored_dir(c.components[i].as_str()) {
            return false;
        }
        i = i + 1;
    }
    true
}

fn contains_path(seen: &Vec<String>, p: &String) -> (r: bool)
    ensures
        r == seen@.map_values(|s: String| s@).contains(p@),
{
    let mut k: usize = 0;
    while k < seen.len()
        invariant
            k <= seen@.len(),
            forall|j: int| 0 <= j < k ==> seen@[j]@ != p@,
        decreases seen@.len() - k,
    {
        if seen[k] == *p {
            assert(seen@.map_values(|s: String| s@)[k as int] == p@);
            return true;
        }
        k = k + 1;
    }
    false
}

/// The project that one candidate describes.
pub fn parse_project(c: &ProjectCandidate) -> (r: Option<Project>)
    ensures
        match (r, project_of(*c)) {
            (Some(p), Some(v)) => p@ == v,
            (None, None) => true,
            _ => false,
        },
{
    match &c.manifest {
        None => None,
        Some(doc) => {
            let name = match get_string(doc, "name") {
                Some(n) => n,
                None => match &c.dir_name {
                    Some(d) => d.clone(),
                    None => String::from_str("Unknown"),
                },
            };
            let version = match get_string(doc, "version") {
                Some(v) => v,
                None => String::from_str("0.0.0"),
            };
            Some(
                Project {
                    name,
                    path: c.canonical_path.clone(),
                    version,
                    is_writable: c.is_writable,
                    has_node_modules: c.has_node_modules,
                },
            )
        },
    }
}

/// The projects under a root, from the directories that the walk met in order.
/// Only an invalid root fails; a manifest that cannot be read just leaves its
/// directory out.
pub fn scan_projects(root_is_dir: bool, candidates: &Vec<ProjectCandidate>) -> (r: Result<
    Vec<Project>,
    ScanError,
>)
    ensures
        match r {
            Ok(v) => root_is_dir && project_views(v@) == scan_rows(candidates@),
            Err(e) => !root_is_dir && e == ScanError::InvalidRoot,
        },
{
    if !root_is_dir {
        return Err(ScanError::InvalidRoot);
    }
    let mut projects: Vec<Project> = Vec::new();
    let mut seen: Vec<String> = Vec::new();
    let mut i: usize = 0;
    while i < candidates.len()
        invariant
            i <= candidates@.len(),
            seen@.map_values(|s: String| s@) == seen_paths(candidates@.subrange(0, i as int)),
            project_views(projects@) == scan_rows(candidates@.subrange(0, i as int)),
        decreases candidates@.len() - i,
    {
        let c = &candidates[i];
        let ghost prefix = candidates@.subrange(0, i as int);
        proof {
            assert(candidates@.subrange(0, i + 1).drop_last() =~= prefix);
        }
        if is_admitted(c) {
            let fresh = !contains_path(&seen, &c.canonical_path);
            let ghost seen0 = seen@;
            seen.push(c.canonical_path.clone());
            assert(seen@.map_values(|s: String| s@) =~= seen0.map_values(|s: String| s@).push(
                c.canonical_path@,
            ));
            if fresh {
                match parse_project(c) {
                    Some(p) => {
                        let ghost before = projects@;
                        projects.push(p);
                        assert(project_views(projects@) =~= project_views(before).push(p@));
                    },
                    None => {},
                }
            }
        }
        i = i + 1;
    }
    assert(candidates@.subrange(0, candidates@.len() as int) =~= candidates@);
    Ok(projects)
}

/// A scan is a function of what the walk meets: walking an unchanged tree
/// again gives the same projects, paths, names and versions, in the same order.
pub proof fn lemma_scan_repeatable(first: Seq<ProjectCandidate>, second: Seq<ProjectCandidate>)
    requires
        first == second,
    ensures
        scan_rows(first) == scan_rows(second),
{
}

/// Every listed project comes from a directory that the walk reaches, so none
/// lies below an ignored directory name, whatever manifests are there.
pub proof fn lemma_listed_from_admitted(cands: Seq<ProjectCandidate>)
    ensures
        forall|k: int|
            0 <= k < scan_rows(cands).len() ==> exists|j: int|
                0 <= j < cands.len() && admitted(#[trigger] cands[j]) && project_of(cands[j])
                    == Some(#[trigger] scan_rows(cands)[k]),
    decreases cands.len(),
{
    if cands.len() > 0 {
        let init = cands.drop_last();
        lemma_listed_from_admitted(init);
        let rows = scan_rows(cands);
        assert forall|k: int| 0 <= k < rows.len() implies exists|j: int|
            0 <= j < cands.len() && admitted(#[trigger] cands[j]) && project_of(cands[j])
                == Some(#[trigger] rows[k]) by {
            if k < scan_rows(init).len() {
                assert(rows[k] == scan_rows(init)[k]);
                let j = choose|j: int|
                    0 <= j < init.len() && admitted(#[trigger] init[j]) && project_of(init[j])
                        == Some(#[trigger] scan_rows(init)[k]);
                assert(cands[j] == init[j]);
            } else {
                assert(cands[cands.len() - 1] == cands.last());
            }
        }
    }
}

proof fn lemma_listed_paths_seen(cands: Seq<ProjectCandidate>)
    ensures
        forall|k: int|
            0 <= k < scan_rows(cands).len() ==> seen_paths(cands).contains(
                #[trigger] scan_rows(cands)[k].path,
            ),
    decreases cands.len(),
{
    if cands.len() > 0 {
        let init = cands.drop_last();
        lemma_listed_paths_seen(init);
        let rows = scan_rows(cands);
        assert forall|k: int| 0 <= k < rows.len() implies seen_paths(cands).contains(
            #[trigger] rows[k].path,
        ) by {
            if k < scan_rows(init).len() {
                assert(rows[k] == scan_rows(init)[k]);
                let x = rows[k].path;
                let i = choose|i: int| 0 <= i < seen_paths(init).len() && seen_paths(init)[i] == x;
                if admitted(cands.last()) {
                    assert(seen_paths(cands)[i] == x);
                }
            } else {
                let n = seen_paths(init).len() as int;
                assert(seen_paths(cands)[n] == rows[k].path);
            }
        }
    }
}

/// No two listed projects share a canonical path: a directory reached twice,
/// through a symbolic link or otherwise, is listed once.
pub proof fn lemma_paths_unique(cands: Seq<ProjectCandidate>)
    ensures
        forall|a: int, b: int|
            0 <= a < b < scan_rows(cands).len() ==> (#[trigger] scan_rows(cands)[a]).path
                != (#[trigger] scan_rows(cands)[b]).path,
    decreases cands.len(),
{
    if cands.len() > 0 {
        let init = cands.drop_last();
        lemma_paths_unique(init);
        lemma_listed_paths_seen(init);
        let rows = scan_rows(cands);
        let n = scan_rows(init).len() as int;
        assert forall|a: int, b: int| 0 <= a < b < rows.len() implies (#[trigger] rows[a]).path
            != (#[trigger] rows[b]).path by {
            assert(rows[a] == scan_rows(init)[a]);
            if b < n {
                assert(rows[b] == scan_rows(init)[b]);
            } else {
                assert(seen_paths(init).contains(scan_rows(init)[a].path));
            }
        }
    }
}

} // verus!
