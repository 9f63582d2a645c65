use vstd::prelude::*;

use crate::json::opt_view;

verus! {

/// A project found by a scan: one directory holding a manifest.
#[derive(Debug, Clone)]
pub struct Project {
    pub name: String,
    pub path: String,
    pub version: String,
    pub is_writable: bool,
    pub has_node_modules: bool,
}

pub struct ProjectView {
    pub name: Seq<char>,
    pub path: Seq<char>,
    pub version: Seq<char>,
    pub is_writable: bool,
    pub has_node_modules: bool,
}

impl View for Project {
    type V = ProjectView;

    open spec fn view(&self) -> ProjectView {
        ProjectView {
            name: self.name@,
            path: self.path@,
            version: self.version@,
            is_writable: self.is_writable,
            has_node_modules: self.has_node_modules,
        }
    }
}

/// How urgently a declared dependency wants an update.
#[derive(Debug, Clone, Copy, PartialEq, Eq, Structural)]
pub enum UpdateStatus {
    UpToDate,
    Minor,
    Major,
    NotInstalled,
    Error,
}

/// One row of a project's package inventory.
#[derive(Debug, Clone)]
pub struct Package {
    pub name: String,
    pub current_version: String,
    pub wanted_version: Option<String>,
    pub latest_version: Option<String>,
    pub update_status: UpdateStatus,
    pub is_dev: bool,
    pub repository: Option<String>,
    pub homepage: Option<String>,
}

pub struct PackageView {
    pub name: Seq<char>,
    pub current_version: Seq<char>,
    pub wanted_version: Option<Seq<char>>,
    pub latest_version: Option<Seq<char>>,
    pub update_status: UpdateStatus,
    pub is_dev: bool,
    pub repository: Option<Seq<char>>,
    pub homepage: Option<Seq<char>>,
}

impl View for Package {
    type V = PackageView;

    open spec fn view(&self) -> PackageView {
        PackageView {
            name: self.name@,
            current_version: self.current_version@,
            wanted_version: opt_view(self.wanted_version),
            latest_version: opt_view(self.latest_version),
            update_status: self.update_status,
            is_dev: self.is_dev,
            repository: opt_view(self.repository),
            homepage: opt_view(self.homepage),
        }
    }
}

} // verus!
