use vstd::prelude::*;

verus! {

/// Why a version change or an install did not happen or did not succeed.
#[derive(Debug, Clone, PartialEq, Eq)]
pub enum InstallError {
    ProjectNotFound,
    /// The project has no dependency cache yet.
    DependenciesNotInstalled,
    ManifestNotFound,
    ReadOnly,
    SpawnFailed(String),
    WaitFailed(String),
    /// The tool exited with failure; its standard error where it was captured.
    InstallFailed(String),
}

/// How an install process ended.
#[derive(Debug)]
pub enum InstallRun {
    SpawnFailed(String),
    WaitFailed(String),
    Exited { success: bool, stderr: String },
}

/// The argument that names one package at one version.
pub open spec fn package_spec(name: Seq<char>, version: Seq<char>) -> Seq<char> {
    name + "@"@ + version
}

/// The checks before changing one package's version, and the tool's arguments.
/// A missing project comes before a missing dependency cache.
pub fn update_package(
    project_exists: bool,
    deps_installed: bool,
    package_name: &str,
    version: &str,
) -> (r: Result<Vec<String>, InstallError>)
    ensures
        match r {
            Ok(args) => {
                &&& project_exists && deps_installed
                &&& args@.len() == 2
                &&& args@[0]@ == "install"@
                &&& args@[1]@ == package_spec(package_name@, version@)
            },
            Err(e) => if !project_exists {
                e == InstallError::ProjectNotFound
            } else {
                !deps_installed && e == InstallError::DependenciesNotInstalled
            },
        },
{
    if !project_exists {
        return Err(InstallError::ProjectNotFound);
    }
    if !deps_installed {
        return Err(InstallError::DependenciesNotInstalled);
    }
    let mut spec = String::from_str(package_name);
    spec.append("@");
    spec.append(version);
    let mut args: Vec<String> = Vec::new();
    args.push(String::from_str("install"));
    args.push(spec);
    Ok(args)
}

/// The outcome of a version change: a failed exit carries the tool's standard
/// error.
pub fn update_package_result(run: &InstallRun) -> (r: Result<(), InstallError>)
    ensures
        r == match *run {
            InstallRun::SpawnFailed(e) => Err(InstallError::SpawnFailed(e)),
            InstallRun::WaitFailed(e) => Err(InstallError::WaitFailed(e)),
            InstallRun::Exited { success, stderr } => if success {
                Ok(())
            } else {
                Err(InstallError::InstallFailed(stderr))
            },
        },
{
    match run {
        InstallRun::SpawnFailed(e) => Err(InstallError::SpawnFailed(e.clone())),
        InstallRun::WaitFailed(e) => Err(InstallError::WaitFailed(e.clone())),
        InstallRun::Exited { success, stderr } => {
            if *success {
                Ok(())
            } else {
                Err(InstallError::InstallFailed(stderr.clone()))
            }
        },
    }
}

/// The checks before installing all dependencies, and the tool's arguments:
/// the project must exist, hold a manifest, and that manifest must not be
/// read-only (`read_only` is `None` when its permissions could not be read,
/// which does not stop the install).
pub fn install_dependencies(project_exists: bool, manifest_exists: bool, read_only: Option<bool>) -> (r:
    Result<Vec<String>, InstallError>)
    ensures
        match r {
            Ok(args) => {
                &&& project_exists && manifest_exists && read_only != Some(true)
                &&& args@.len() == 1
                &&& args@[0]@ == "install"@
            },
            Err(e) => if !project_exists {
                e == InstallError::ProjectNotFound
            } else if !manifest_exists {
                e == InstallError::ManifestNotFound
            } else {
                read_only == Some(true) && e == InstallError::ReadOnly
            },
        },
{
    if !project_exists {
        return Err(InstallError::ProjectNotFound);
    }
    if !manifest_exists {
        return Err(InstallError::ManifestNotFound);
    }
    match read_only {
        Some(true) => {
            return Err(InstallError::ReadOnly);
        },
        _ => {},
    }
    let mut args: Vec<String> = Vec::new();
    args.push(String::from_str("install"));
    Ok(args)
}

/// The outcome of installing all dependencies. Its output went out line by
/// line while it ran, so a failed exit carries no text of its own.
pub fn install_dependencies_result(run: &InstallRun) -> (r: Result<(), InstallError>)
    ensures
        match *run {
            InstallRun::SpawnFailed(e) => r == Err::<(), InstallError>(InstallError::SpawnFailed(e)),
            InstallRun::WaitFailed(e) => r == Err::<(), InstallError>(InstallError::WaitFailed(e)),
            InstallRun::Exited { success, stderr: _ } => if success {
                r is Ok
            } else {
                r matches Err(InstallError::InstallFailed(s)) && s@.len() == 0
            },
        },
{
    match run {
        InstallRun::SpawnFailed(e) => Err(InstallError::SpawnFailed(e.clone())),
        InstallRun::WaitFailed(e) => Err(InstallError::WaitFailed(e.clone())),
        InstallRun::Exited { success, stderr: _ } => {
            if *success {
                Ok(())
            } else {
                Err(InstallError::InstallFailed(String::new()))
            }
        },
    }
}

} // verus!
