use vstd::prelude::*;

verus! {

/// The one watch slot of a session: the project root being watched, if any.
/// The watch handle itself lives beside it, under the same lock, and is
/// replaced exactly when this state says so.
#[derive(Debug)]
pub struct WatcherState {
    watched_path: Option<String>,
}

/// Why a watch could not be started.
#[derive(Debug, Clone, PartialEq, Eq)]
pub enum WatchError {
    ProjectNotFound,
    /// Establishing the watch failed, with the watcher's message.
    SetupFailed(String),
}

impl View for WatcherState {
    type V = Option<Seq<char>>;

    closed spec fn view(&self) -> Option<Seq<char>> {
        match self.watched_path {
            Some(p) => Some(p@),
            None => None,
        }
    }
}

impl Default for WatcherState {
    fn default() -> (r: Self)
        ensures
            r@ is None,
    {
        WatcherState { watched_path: None }
    }
}

impl WatcherState {
    /// The watched project root, if any.
    pub fn watched(&self) -> (r: Option<&String>)
        ensures
            match r {
                Some(p) => self@ == Some(p@),
                None => self@ is None,
            },
    {
        match &self.watched_path {
            Some(p) => Some(p),
            None => None,
        }
    }

    /// The first step of starting a watch: tears down the current one, whatever
    /// it was, then refuses a project root that does not exist.
    pub fn begin_watch(&mut self, path_exists: bool) -> (r: Result<(), WatchError>)
        ensures
            final(self)@ is None,
            r == if path_exists {
                Ok::<(), WatchError>(())
            } else {
                Err(WatchError::ProjectNotFound)
            },
    {
        self.watched_path = None;
        if path_exists {
            Ok(())
        } else {
            Err(WatchError::ProjectNotFound)
        }
    }

    /// Records the outcome of establishing a watch on `path`: on success it is
    /// the one active watch; on failure nothing is watched.
    pub fn finish_watch(&mut self, path: String, setup: Result<(), String>) -> (r: Result<
        (),
        WatchError,
    >)
        ensures
            match setup {
                Ok(()) => r is Ok && final(self)@ == Some(path@),
                Err(e) => r == Err::<(), WatchError>(WatchError::SetupFailed(e)) && final(self)@ is None,
            },
    {
        match setup {
            Ok(()) => {
                self.watched_path = Some(path);
                Ok(())
            },
            Err(e) => {
                self.watched_path = None;
                Err(WatchError::SetupFailed(e))
            },
        }
    }

    /// Stops watching. Stopping when nothing is watched succeeds too.
    pub fn unwatch_project(&mut self)
        ensures
            final(self)@ is None,
    {
        self.watched_path = None;
    }
}

/// Whether a file name is the manifest's.
pub open spec fn is_manifest_name(name: Option<String>) -> bool {
    match name {
        Some(n) => n@ == "package.json"@,
        None => false,
    }
}

/// Whether a file-system event concerns the manifest: one of the affected
/// paths has the manifest's file name. `names` holds the file name of each
/// affected path, where it has one.
pub fn is_manifest_event(names: &Vec<Option<String>>) -> (r: bool)
    ensures
        r == exists|i: int| 0 <= i < names@.len() && is_manifest_name(#[trigger] names@[i]),
{
    let target = String::from_str("package.json");
    let mut i: usize = 0;
    while i < names.len()
        invariant
            i <= names@.len(),
            target@ == "package.json"@,
            forall|j: int| 0 <= j < i ==> !is_manifest_name(#[trigger] names@[j]),
        decreases names@.len() - i,
    {
        match &names[i] {
            Some(n) => {
                if *n == target {
                    return true;
                }
            },
            None => {},
        }
        i = i + 1;
    }
    false
}

} // verus!
