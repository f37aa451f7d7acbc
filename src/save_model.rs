use vstd::prelude::*;

verus! {

/// Mathematical model of a save record.
pub struct SaveRecord {
    pub game: Seq<char>,
    pub core: Seq<char>,
    pub path: Seq<char>,
    pub date_modified: int,
}

/// One save file as found on one side.
#[derive(Debug, Clone)]
pub struct SaveInfo {
    pub game: String,
    pub core: String,
    pub path: String,
    pub date_modified: i64,
}

impl View for SaveInfo {
    type V = SaveRecord;

    open spec fn view(&self) -> SaveRecord {
        SaveRecord {
            game: self.game@,
            core: self.core@,
            path: self.path@,
            date_modified: self.date_modified as int,
        }
    }
}

impl SaveInfo {
    pub fn new(game: String, core: String, path: String, date_modified: i64) -> (r: SaveInfo)
        ensures
            r.game@ == game@,
            r.core@ == core@,
            r.path@ == path@,
            r.date_modified == date_modified,
    {
        SaveInfo { game, core, path, date_modified }
    }

    /// Whether two records name the same logical save slot: same core and same game.
    pub fn same_slot(&self, other: &SaveInfo) -> (r: bool)
        ensures
            r == (self@.core == other@.core && self@.game == other@.game),
    {
        self.core == other.core && self.game == other.game
    }
}

impl PartialEq for SaveInfo {
    fn eq(&self, other: &SaveInfo) -> (r: bool) {
        self.game == other.game && self.core == other.core && self.path == other.path
            && self.date_modified == other.date_modified
    }
}

impl vstd::std_specs::cmp::PartialEqSpecImpl for SaveInfo {
    open spec fn obeys_eq_spec() -> bool {
        true
    }

    open spec fn eq_spec(&self, other: &SaveInfo) -> bool {
        self@ == other@
    }
}

/// A save record tagged with the side it was found on.
#[derive(Debug, Clone)]
pub enum PlatformSave {
    PocketSave(SaveInfo),
    MiSTerSave(SaveInfo),
}

} // verus!
