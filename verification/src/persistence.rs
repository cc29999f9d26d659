//! Where snapshots are kept, and what is to be done with a stored one.
//!
//! Each sandbox has one file, named after it, in a base directory. The
//! functions here read and write no file: they name the files to touch and
//! judge what was found in them.

use vstd::prelude::*;
use vstd::string::*;
use crate::paths;
use crate::state_snapshot::{SnapshotView, StateSnapshot};
use crate::timestamp::{current_time, Timestamp};

verus! {

/// The directory that holds the snapshots unless another is given.
pub open spec fn default_base_dir() -> Seq<char> {
    "/var/lib/e2b/snapshots"@
}

/// Why a stored snapshot cannot be handed out.
#[derive(Clone, Copy, Debug, PartialEq, Eq, Structural)]
pub enum StoreError {
    /// The file is there, and what it holds is no snapshot.
    CorruptSnapshot,
}

/// What was found where a snapshot is kept.
#[derive(Debug, PartialEq, Eq)]
pub enum StoredSnapshot {
    /// There is no file.
    Missing,
    /// There is a file, and what it holds cannot be read as a snapshot.
    Unreadable,
    /// There is a file, and it holds this snapshot.
    Found(StateSnapshot),
}

/// The files that saving a snapshot touches, in the order of their use: the
/// directory is made sure of, the snapshot is written to the temporary file,
/// and that file is renamed to the final one. A reader of the final file
/// thus sees the snapshot that was there before or the new one in full.
#[derive(Debug, PartialEq, Eq)]
pub struct SavePlan {
    pub directory: String,
    pub temp_path: String,
    pub final_path: String,
}

/// What loading a snapshot gives.
#[derive(Debug, PartialEq, Eq)]
pub struct Loaded {
    /// The snapshot, where there is one that is not stale.
    pub snapshot: Option<StateSnapshot>,
    /// Whether the file holds a stale snapshot and is to be removed.
    pub expired: bool,
}

/// A file that was met while the base directory was scanned.
#[derive(Debug, PartialEq, Eq)]
pub struct ScannedFile {
    pub file_name: String,
    /// The snapshot the file holds; `None` where it could not be read as one.
    pub snapshot: Option<StateSnapshot>,
}

/// The mathematical content of a [`ScannedFile`].
pub struct ScannedFileView {
    pub file_name: Seq<char>,
    pub snapshot: Option<SnapshotView>,
}

impl View for ScannedFile {
    type V = ScannedFileView;

    open spec fn view(&self) -> ScannedFileView {
        ScannedFileView {
            file_name: self.file_name@,
            snapshot: match self.snapshot {
                Some(snapshot) => Some(snapshot@),
                None => None,
            },
        }
    }
}

/// The contents of a list of scanned files, in order.
pub open spec fn scanned(files: Seq<ScannedFile>) -> Seq<ScannedFileView> {
    files.map_values(|f: ScannedFile| f@)
}

/// The contents of a list of texts, in order.
pub open spec fn texts(list: Seq<String>) -> Seq<Seq<char>> {
    list.map_values(|s: String| s@)
}

/// Whether the scan removes `file`: it is named as a snapshot is, holds
/// one, and that one is stale at `now`.
pub open spec fn is_expired_file(file: ScannedFileView, now: Timestamp) -> bool {
    &&& paths::is_json_file_name(file.file_name)
    &&& file.snapshot matches Some(snapshot) && snapshot.is_stale_at(now)
}

/// The paths of the files under `base_dir` that the scan removes, in the
/// order in which the files were met.
pub open spec fn expired_paths(base_dir: Seq<char>, files: Seq<ScannedFileView>, now: Timestamp)
    -> Seq<Seq<char>>
    decreases files.len(),
{
    if files.len() == 0 {
        Seq::empty()
    } else {
        let earlier = expired_paths(base_dir, files.drop_last(), now);
        if is_expired_file(files.last(), now) {
            earlier.push(paths::joined(base_dir, files.last().file_name))
        } else {
            earlier
        }
    }
}

/// Whether `loaded` is what loading gives for `stored` at `now`: nothing
/// for a missing file; nothing, and the wish to have the file removed, for a
/// stale snapshot; the snapshot itself where it is not stale; an error, and
/// never "nothing", for a file that holds no snapshot.
pub open spec fn is_load_result(
    stored: StoredSnapshot,
    now: Timestamp,
    loaded: Result<Loaded, StoreError>,
) -> bool {
    match stored {
        StoredSnapshot::Missing => loaded == Ok::<Loaded, StoreError>(
            Loaded { snapshot: None, expired: false },
        ),
        StoredSnapshot::Unreadable => loaded == Err::<Loaded, StoreError>(
            StoreError::CorruptSnapshot,
        ),
        StoredSnapshot::Found(snapshot) => if snapshot@.is_stale_at(now) {
            loaded == Ok::<Loaded, StoreError>(Loaded { snapshot: None, expired: true })
        } else {
            match loaded {
                Ok(Loaded { snapshot: Some(kept), expired: false }) => kept@ == snapshot@,
                _ => false,
            }
        },
    }
}

/// Keeps the place where snapshots are stored.
pub struct PersistenceManager {
    base_dir: String,
}

impl View for PersistenceManager {
    type V = Seq<char>;

    /// The base directory.
    closed spec fn view(&self) -> Seq<char> {
        self.base_dir@
    }
}

impl PersistenceManager {
    /// A manager that keeps snapshots in the default directory.
    pub fn new() -> (manager: Self)
        ensures
            manager@ == default_base_dir(),
    {
        PersistenceManager { base_dir: "/var/lib/e2b/snapshots".to_owned() }
    }

    /// A manager that keeps snapshots in `base_dir`.
    pub fn with_base_dir(base_dir: String) -> (manager: Self)
        ensures
            manager@ == base_dir@,
    {
        PersistenceManager { base_dir }
    }

    /// The directory in which the snapshots are kept.
    pub fn get_base_dir(&self) -> (base_dir: &str)
        ensures
            base_dir@ == self@,
    {
        self.base_dir.as_str()
    }

    /// The path of the file that holds the snapshot of `sandbox_id`.
    pub fn snapshot_path(&self, sandbox_id: &str) -> (path: String)
        ensures
            path@ == paths::joined(self@, paths::snapshot_file_name_of(sandbox_id@)),
    {
        let name = paths::snapshot_file_name(sandbox_id);
        paths::join(self.base_dir.as_str(), name.as_str())
    }

    /// Names the files that saving `snapshot` touches.
    pub fn save_snapshot(&self, snapshot: &StateSnapshot) -> (plan: SavePlan)
        ensures
            plan.directory@ == self@,
            plan.temp_path@ == paths::joined(
                self@,
                paths::temp_file_name_of(snapshot@.sandbox_id),
            ),
            plan.final_path@ == paths::joined(
                self@,
                paths::snapshot_file_name_of(snapshot@.sandbox_id),
            ),
    {
        let temp_name = paths::temp_file_name(snapshot.sandbox_id.as_str());
        SavePlan {
            directory: self.base_dir.clone(),
            temp_path: paths::join(self.base_dir.as_str(), temp_name.as_str()),
            final_path: self.snapshot_path(snapshot.sandbox_id.as_str()),
        }
    }

    /// Judges what was found in a sandbox's file, by the system clock: the
    /// result of [`PersistenceManager::load_snapshot_at`] for the instant
    /// the clock gave.
    pub fn load_snapshot(&self, stored: StoredSnapshot) -> (loaded: Result<Loaded, StoreError>)
        ensures
            exists|now: Timestamp|
                now.is_clock_reading() && #[trigger] is_load_result(stored, now, loaded),
    {
        let now = current_time();
        self.load_snapshot_at(stored, &now)
    }

    /// Judges what was found in a sandbox's file, at the instant `now`.
    pub fn load_snapshot_at(&self, stored: StoredSnapshot, now: &Timestamp) -> (loaded: Result<
        Loaded,
        StoreError,
    >)
        ensures
            is_load_result(stored, *now, loaded),
    {
        match stored {
            StoredSnapshot::Missing => Ok(Loaded { snapshot: None, expired: false }),
            StoredSnapshot::Unreadable => Err(StoreError::CorruptSnapshot),
            StoredSnapshot::Found(snapshot) => {
                if snapshot.is_stale_at(now) {
                    Ok(Loaded { snapshot: None, expired: true })
                } else {
                    Ok(Loaded { snapshot: Some(snapshot), expired: false })
                }
            },
        }
    }

    /// The path of the file to remove when the snapshot of `sandbox_id` is
    /// given up. Where there is no such file, nothing is to be done.
    pub fn remove_snapshot(&self, sandbox_id: &str) -> (path: String)
        ensures
            path@ == paths::joined(self@, paths::snapshot_file_name_of(sandbox_id@)),
    {
        self.snapshot_path(sandbox_id)
    }

    /// Picks, by the system clock, the files to remove among those met in
    /// the base directory: the result of
    /// [`PersistenceManager::cleanup_old_snapshots_at`] for the instant the
    /// clock gave.
    pub fn cleanup_old_snapshots(&self, files: &Vec<ScannedFile>) -> (doomed: Vec<String>)
        ensures
            exists|now: Timestamp|
                now.is_clock_reading() && texts(doomed@) == #[trigger] expired_paths(
                    self@,
                    scanned(files@),
                    now,
                ),
    {
        let now = current_time();
        self.cleanup_old_snapshots_at(files, &now)
    }

    /// Picks the files to remove among those met in the base directory:
    /// those that are named as snapshots are, hold a snapshot, and whose
    /// snapshot is stale at `now`. A file that holds no snapshot is passed
    /// over and does not end the scan.
    pub fn cleanup_old_snapshots_at(&self, files: &Vec<ScannedFile>, now: &Timestamp) -> (doomed:
        Vec<String>)
        ensures
            texts(doomed@) == expired_paths(self@, scanned(files@), *now),
    {
        let ghost all = scanned(files@);
        let mut doomed: Vec<String> = Vec::new();
        let mut i: usize = 0;
        proof {
            assert(all.take(0) =~= Seq::empty());
            assert(texts(doomed@) =~= expired_paths(self@, all.take(0), *now));
        }
        while i < files.len()
            invariant
                i <= files.len(),
                all == scanned(files@),
                texts(doomed@) == expired_paths(self@, all.take(i as int), *now),
            decreases files.len() - i,
        {
            proof {
                assert(all.take(i + 1).drop_last() =~= all.take(i as int));
                assert(all.take(i + 1).last() == files[i as int]@);
            }
            let file = &files[i];
            let expired = paths::has_json_extension(file.file_name.as_str()) && match &file.snapshot {
                Some(snapshot) => snapshot.is_stale_at(now),
                None => false,
            };
            if expired {
                let path = paths::join(self.base_dir.as_str(), file.file_name.as_str());
                let ghost before = texts(doomed@);
                doomed.push(path);
                assert(texts(doomed@) =~= before.push(path@));
            }
            i = i + 1;
        }
        proof {
            assert(all.take(i as int) =~= all);
        }
        doomed
    }
}

} // verus!
