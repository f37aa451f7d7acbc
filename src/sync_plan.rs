use crate::paths::{file_name_of, join_of, join_path, parent_of, split_path};
use crate::save_compare::{Outcome, SaveComparison};
use crate::save_model::{SaveInfo, SaveRecord};
use vstd::prelude::*;
use vstd::string::*;

verus! {

/// Directory on the remote platform under which each core keeps its saves.
pub const REMOTE_SAVES_ROOT: &'static str = "/media/fat/saves/";

/// Why a copy direction cannot be applied to an outcome.
#[derive(Debug, Clone, Copy, PartialEq, Eq, Structural)]
pub enum PlanError {
    /// The outcome carries no remote save to copy from.
    NoMisterSave,
    /// The outcome carries no local save to copy from.
    NoPocketSave,
}

/// Fetch one remote file and write it to every local destination.
#[derive(Debug, Clone)]
pub struct Download {
    pub remote_dir: String,
    pub file_name: String,
    pub destinations: Vec<String>,
}

/// What copying from the remote side amounts to.
#[derive(Debug, Clone)]
pub enum MisterAction {
    /// No local destination exists: nothing is fetched or written.
    Skip,
    Download(Download),
}

/// Read one local file and store it under its own name in a remote directory.
#[derive(Debug, Clone)]
pub struct Upload {
    pub local_path: String,
    pub remote_dir: String,
    pub file_name: String,
}

/// The models of a sequence of strings.
pub open spec fn texts(v: Seq<String>) -> Seq<Seq<char>> {
    v.map_values(|s: String| s@)
}

/// The remote record an outcome carries, if any.
pub open spec fn mister_side(o: Outcome) -> Option<SaveRecord> {
    match o {
        Outcome::MiSTerOnly(m) => Some(m),
        Outcome::PocketNewer(p) => Some(p.mister),
        Outcome::MiSTerNewer(p) => Some(p.mister),
        Outcome::Conflict(p) => Some(p.mister),
        _ => None,
    }
}

/// The local record an outcome carries, if any.
pub open spec fn pocket_side(o: Outcome) -> Option<SaveRecord> {
    match o {
        Outcome::PocketOnly(p) => Some(p),
        Outcome::PocketNewer(p) => Some(p.pocket),
        Outcome::MiSTerNewer(p) => Some(p.pocket),
        Outcome::Conflict(p) => Some(p.pocket),
        _ => None,
    }
}

/// Local destinations for a remote save: the discovered ones where the
/// outcome has no local record, else the known local path under `root`.
pub open spec fn pocket_destinations(o: Outcome, root: Seq<char>, found: Seq<Seq<char>>) -> Seq<
    Seq<char>,
> {
    match o {
        Outcome::MiSTerOnly(_) => found,
        Outcome::PocketNewer(p) => seq![join_of(root, p.pocket.path)],
        Outcome::MiSTerNewer(p) => seq![join_of(root, p.pocket.path)],
        Outcome::Conflict(p) => seq![join_of(root, p.pocket.path)],
        _ => Seq::empty(),
    }
}

/// `a` is the download of the remote file `remote` to `dests`.
pub open spec fn is_download(a: MisterAction, remote: Seq<char>, dests: Seq<Seq<char>>) -> bool {
    match a {
        MisterAction::Download(d) => d.remote_dir@ == parent_of(remote) && d.file_name@
            == file_name_of(remote) && texts(d.destinations@) == dests,
        MisterAction::Skip => false,
    }
}

/// Remote directory for a save of `core` that has no remote counterpart yet.
pub open spec fn remote_save_dir(core: Seq<char>) -> Seq<char> {
    REMOTE_SAVES_ROOT@ + core
}

/// Remote directory an upload of a local save goes to.
pub open spec fn upload_dir(o: Outcome) -> Seq<char> {
    match o {
        Outcome::PocketOnly(p) => remote_save_dir(p.core),
        Outcome::PocketNewer(p) => parent_of(p.mister.path),
        Outcome::MiSTerNewer(p) => parent_of(p.mister.path),
        Outcome::Conflict(p) => parent_of(p.mister.path),
        _ => Seq::empty(),
    }
}

impl<'a> SaveComparison<'a> {
    /// The remote record this outcome carries, if any.
    pub fn mister_save(&self) -> (r: Option<&'a SaveInfo>)
        ensures
            match r {
                Some(s) => mister_side(self@) == Some(s@),
                None => mister_side(self@) is None,
            },
    {
        match self {
            SaveComparison::MiSTerOnly(m) => Some(*m),
            SaveComparison::PocketNewer(p) => Some(p.mister),
            SaveComparison::MiSTerNewer(p) => Some(p.mister),
            SaveComparison::Conflict(p) => Some(p.mister),
            _ => None,
        }
    }

    /// The local record this outcome carries, if any.
    pub fn pocket_save(&self) -> (r: Option<&'a SaveInfo>)
        ensures
            match r {
                Some(s) => pocket_side(self@) == Some(s@),
                None => pocket_side(self@) is None,
            },
    {
        match self {
            SaveComparison::PocketOnly(p) => Some(*p),
            SaveComparison::PocketNewer(p) => Some(p.pocket),
            SaveComparison::MiSTerNewer(p) => Some(p.pocket),
            SaveComparison::Conflict(p) => Some(p.pocket),
            _ => None,
        }
    }

    /// Plans copying the remote save over the local side. `found` holds the
    /// local save paths derived from the ROMs discovered for the game; it is
    /// read only where the outcome has no local record.
    pub fn plan_from_mister(&self, pocket_root: &str, found: Vec<String>) -> (r: Result<
        MisterAction,
        PlanError,
    >)
        ensures
            mister_side(self@) is None <==> r == Err::<MisterAction, PlanError>(
                PlanError::NoMisterSave,
            ),
            mister_side(self@) is Some && pocket_destinations(self@, pocket_root@, texts(found@)).len()
                == 0 ==> r matches Ok(MisterAction::Skip),
            mister_side(self@) is Some && pocket_destinations(self@, pocket_root@, texts(found@)).len()
                > 0 ==> (r matches Ok(a) && is_download(
                a,
                mister_side(self@)->Some_0.path,
                pocket_destinations(self@, pocket_root@, texts(found@)),
            )),
    {
        let (remote, destinations) = match self {
            SaveComparison::MiSTerOnly(m) => (*m, found),
            SaveComparison::PocketNewer(p) => (p.mister, vec![join_path(pocket_root, p.pocket.path.as_str())]),
            SaveComparison::MiSTerNewer(p) => (p.mister, vec![join_path(pocket_root, p.pocket.path.as_str())]),
            SaveComparison::Conflict(p) => (p.mister, vec![join_path(pocket_root, p.pocket.path.as_str())]),
            _ => {
                return Err(PlanError::NoMisterSave);
            },
        };
        assert(texts(destinations@) =~= pocket_destinations(self@, pocket_root@, texts(found@)));
        if destinations.len() == 0 {
            return Ok(MisterAction::Skip);
        }
        let (remote_dir, file_name) = split_path(remote.path.as_str());
        Ok(MisterAction::Download(Download { remote_dir, file_name, destinations }))
    }

    /// Plans copying the local save over the remote side.
    pub fn plan_from_pocket(&self) -> (r: Result<Upload, PlanError>)
        ensures
            pocket_side(self@) is None <==> r == Err::<Upload, PlanError>(PlanError::NoPocketSave),
            pocket_side(self@) is Some ==> (r matches Ok(u) && u.local_path@ == pocket_side(
                self@,
            )->Some_0.path && u.file_name@ == file_name_of(pocket_side(self@)->Some_0.path)
                && u.remote_dir@ == upload_dir(self@)),
    {
        let (local, remote_dir) = match self {
            SaveComparison::PocketOnly(p) => {
                let base = REMOTE_SAVES_ROOT.to_owned();
                (*p, base.concat(p.core.as_str()))
            },
            SaveComparison::PocketNewer(p) => (p.pocket, split_path(p.mister.path.as_str()).0),
            SaveComparison::MiSTerNewer(p) => (p.pocket, split_path(p.mister.path.as_str()).0),
            SaveComparison::Conflict(p) => (p.pocket, split_path(p.mister.path.as_str()).0),
            _ => {
                return Err(PlanError::NoPocketSave);
            },
        };
        let (_, file_name) = split_path(local.path.as_str());
        Ok(Upload { local_path: local.path.clone(), remote_dir, file_name })
    }
}

} // verus!
