use vstd::prelude::*;

verus! {

/// How many entries a package's history keeps.
pub const HISTORY_LIMIT: usize = 20;

/// The longest note, in characters.
pub const NOTE_LIMIT: usize = 80;

/// One recorded version change of a package.
#[derive(Debug, Clone)]
pub struct PackageHistoryEntry {
    /// "upgrade", "downgrade" or "rollback".
    pub kind: String,
    pub from: String,
    pub to: String,
    /// When it happened, as an ISO date string.
    pub date: String,
    pub note: Option<String>,
}

/// Why a history change was refused.
#[derive(Debug, Clone, Copy, PartialEq, Eq, Structural)]
pub enum HistoryError {
    NoteTooLong,
    NoHistory,
}

impl HistoryError {
    pub fn message(&self) -> (r: String)
        ensures
            r@ == match self {
                HistoryError::NoteTooLong => "Note is too long (max 80 chars)"@,
                HistoryError::NoHistory => "No history found to update"@,
            },
    {
        match self {
            HistoryError::NoteTooLong => String::from_str("Note is too long (max 80 chars)"),
            HistoryError::NoHistory => String::from_str("No history found to update"),
        }
    }
}

/// The store key of a package's history within a project.
pub open spec fn history_key(project_path: Seq<char>, package_name: Seq<char>) -> Seq<char> {
    "project:"@ + project_path + ":package:"@ + package_name + ":history"@
}

/// Builds the store key of a package's history within a project.
pub fn get_history_key(project_path: &str, package_name: &str) -> (r: String)
    ensures
        r@ == history_key(project_path@, package_name@),
{
    let mut key = String::from_str("project:");
    key.append(project_path);
    key.append(":package:");
    key.append(package_name);
    key.append(":history");
    key
}

pub open spec fn note_fits(note: Option<String>) -> bool {
    match note {
        Some(n) => n@.len() <= NOTE_LIMIT,
        None => true,
    }
}

/// The most recent `HISTORY_LIMIT` entries, oldest first.
pub open spec fn capped<T>(h: Seq<T>) -> Seq<T> {
    if h.len() > HISTORY_LIMIT {
        h.subrange(h.len() - HISTORY_LIMIT, h.len() as int)
    } else {
        h
    }
}

fn fits(note: &Option<String>) -> (r: bool)
    ensures
        r == note_fits(*note),
{
    match note {
        Some(n) => n.as_str().unicode_len() <= NOTE_LIMIT,
        None => true,
    }
}

/// Refuses a note longer than `NOTE_LIMIT` characters.
pub fn check_note(note: &str) -> (r: Result<(), HistoryError>)
    ensures
        r == if note@.len() <= NOTE_LIMIT {
            Ok::<(), HistoryError>(())
        } else {
            Err(HistoryError::NoteTooLong)
        },
{
    if note.unicode_len() <= NOTE_LIMIT {
        Ok(())
    } else {
        Err(HistoryError::NoteTooLong)
    }
}

/// Appends an entry to a history, keeping the most recent `HISTORY_LIMIT`. An
/// entry whose note is too long is refused and the history is left as it was.
pub fn save_package_history(history: &mut Vec<PackageHistoryEntry>, entry: PackageHistoryEntry) -> (r:
    Result<(), HistoryError>)
    ensures
        match r {
            Ok(()) => note_fits(entry.note) && final(history)@ == capped(old(history)@.push(entry)),
            Err(e) => !note_fits(entry.note) && e == HistoryError::NoteTooLong && final(history)@
                == old(history)@,
        },
{
    if !fits(&entry.note) {
        return Err(HistoryError::NoteTooLong);
    }
    let ghost full = history@.push(entry);
    history.push(entry);
    let ghost mut dropped: int = 0;
    assert(full.subrange(0, full.len() as int) =~= full);
    while history.len() > HISTORY_LIMIT
        invariant
            0 <= dropped <= full.len(),
            history@ == full.subrange(dropped, full.len() as int),
            history@.len() > HISTORY_LIMIT ==> dropped < full.len() - HISTORY_LIMIT,
            history@.len() <= HISTORY_LIMIT ==> dropped == if full.len() > HISTORY_LIMIT {
                full.len() - HISTORY_LIMIT
            } else {
                0
            },
        decreases history@.len(),
    {
        history.remove(0);
        proof {
            dropped = dropped + 1;
        }
        assert(history@ =~= full.subrange(dropped, full.len() as int));
    }
    assert(history@ =~= capped(full));
    Ok(())
}

/// Sets the note of a history's latest entry. A note that is too long is
/// refused before anything else; an empty history has no entry to annotate.
pub fn update_last_package_history_note(history: &mut Vec<PackageHistoryEntry>, note: String) -> (r: Result<
    (),
    HistoryError,
>)
    ensures
        match r {
            Ok(()) => {
                &&& note@.len() <= NOTE_LIMIT
                &&& old(history)@.len() > 0
                &&& final(history)@ == old(history)@.drop_last().push(
                    PackageHistoryEntry {
                        kind: old(history)@.last().kind,
                        from: old(history)@.last().from,
                        to: old(history)@.last().to,
                        date: old(history)@.last().date,
                        note: Some(note),
                    },
                )
            },
            Err(e) => final(history)@ == old(history)@ && if note@.len() > NOTE_LIMIT {
                e == HistoryError::NoteTooLong
            } else {
                e == HistoryError::NoHistory && old(history)@.len() == 0
            },
        },
{
    if note.as_str().unicode_len() > NOTE_LIMIT {
        return Err(HistoryError::NoteTooLong);
    }
    match history.pop() {
        None => Err(HistoryError::NoHistory),
        Some(last) => {
            history.push(
                PackageHistoryEntry {
                    kind: last.kind,
                    from: last.from,
                    to: last.to,
                    date: last.date,
                    note: Some(note),
                },
            );
            Ok(())
        },
    }
}

/// An append to a full history keeps exactly the `HISTORY_LIMIT` most recent
/// entries, in their original order, the new one last.
pub proof fn lemma_append_keeps_latest<T>(history: Seq<T>, entry: T)
    requires
        history.len() >= HISTORY_LIMIT,
    ensures
        capped(history.push(entry)).len() == HISTORY_LIMIT,
        forall|i: int|
            0 <= i < HISTORY_LIMIT ==> #[trigger] capped(history.push(entry))[i] == history.push(
                entry,
            )[history.len() + 1 - HISTORY_LIMIT + i],
        capped(history.push(entry)).last() == entry,
{
}

} // verus!
