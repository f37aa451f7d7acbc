use crate::save_model::{PlatformSave, SaveInfo, SaveRecord};
use vstd::prelude::*;

verus! {

/// Timestamps below this many seconds were written before the remote
/// platform's real-time clock was set, and cannot be trusted.
pub const CLOCK_VALID_FROM: i64 = 86400;

/// Two records of one logical save, one from each side.
#[derive(Debug, Clone, Copy)]
pub struct SavePair<'a> {
    pub pocket: &'a SaveInfo,
    pub mister: &'a SaveInfo,
}

/// Model of a pair: the pocket record, then the remote one.
pub struct PairRecord {
    pub pocket: SaveRecord,
    pub mister: SaveRecord,
}

impl<'a> View for SavePair<'a> {
    type V = PairRecord;

    open spec fn view(&self) -> PairRecord {
        PairRecord { pocket: self.pocket@, mister: self.mister@ }
    }
}

/// The record with the strictly greater timestamp; ties go to the remote side.
pub open spec fn newer_of(p: PairRecord) -> SaveRecord {
    if p.pocket.date_modified > p.mister.date_modified {
        p.pocket
    } else {
        p.mister
    }
}

/// The record that `newer_of` did not pick.
pub open spec fn older_of(p: PairRecord) -> SaveRecord {
    if p.pocket.date_modified > p.mister.date_modified {
        p.mister
    } else {
        p.pocket
    }
}

impl<'a> SavePair<'a> {
    pub fn new(pocket: &'a SaveInfo, mister: &'a SaveInfo) -> (r: SavePair<'a>)
        ensures
            r@ == (PairRecord { pocket: pocket@, mister: mister@ }),
    {
        SavePair { pocket, mister }
    }

    pub fn is_pocket_newer(&self) -> (r: bool)
        ensures
            r == (self@.pocket.date_modified > self@.mister.date_modified),
    {
        self.pocket.date_modified > self.mister.date_modified
    }

    pub fn newer_save(&self) -> (r: &'a SaveInfo)
        ensures
            r@ == newer_of(self@),
    {
        if self.pocket.date_modified > self.mister.date_modified {
            self.pocket
        } else {
            self.mister
        }
    }

    pub fn older_save(&self) -> (r: &'a SaveInfo)
        ensures
            r@ == older_of(self@),
    {
        if self.pocket.date_modified > self.mister.date_modified {
            self.mister
        } else {
            self.pocket
        }
    }

    /// Value equality of two pairs.
    pub fn same_as(&self, other: &SavePair) -> (r: bool)
        ensures
            r == (self@ == other@),
    {
        *self.pocket == *other.pocket && *self.mister == *other.mister
    }
}

impl<'a> PartialEq for SavePair<'a> {
    fn eq(&self, other: &SavePair<'a>) -> (r: bool) {
        self.same_as(other)
    }
}

impl<'a> vstd::std_specs::cmp::PartialEqSpecImpl for SavePair<'a> {
    open spec fn obeys_eq_spec() -> bool {
        true
    }

    open spec fn eq_spec(&self, other: &SavePair<'a>) -> bool {
        self@ == other@
    }
}

/// What to do about one logical save slot.
#[derive(Debug, Clone, Copy)]
pub enum SaveComparison<'a> {
    PocketOnly(&'a SaveInfo),
    MiSTerOnly(&'a SaveInfo),
    PocketNewer(SavePair<'a>),
    MiSTerNewer(SavePair<'a>),
    Conflict(SavePair<'a>),
    NoSyncNeeded,
}

/// Model of an outcome.
pub enum Outcome {
    PocketOnly(SaveRecord),
    MiSTerOnly(SaveRecord),
    PocketNewer(PairRecord),
    MiSTerNewer(PairRecord),
    Conflict(PairRecord),
    NoSyncNeeded,
}

impl<'a> View for SaveComparison<'a> {
    type V = Outcome;

    open spec fn view(&self) -> Outcome {
        match self {
            SaveComparison::PocketOnly(s) => Outcome::PocketOnly(s@),
            SaveComparison::MiSTerOnly(s) => Outcome::MiSTerOnly(s@),
            SaveComparison::PocketNewer(p) => Outcome::PocketNewer(p@),
            SaveComparison::MiSTerNewer(p) => Outcome::MiSTerNewer(p@),
            SaveComparison::Conflict(p) => Outcome::Conflict(p@),
            SaveComparison::NoSyncNeeded => Outcome::NoSyncNeeded,
        }
    }
}

impl<'a> SaveComparison<'a> {
    /// Value equality of two outcomes: same variant and equal payloads.
    pub fn same_as(&self, other: &SaveComparison) -> (r: bool)
        ensures
            r == (self@ == other@),
    {
        match (self, other) {
            (SaveComparison::PocketOnly(a), SaveComparison::PocketOnly(b)) => **a == **b,
            (SaveComparison::MiSTerOnly(a), SaveComparison::MiSTerOnly(b)) => **a == **b,
            (SaveComparison::PocketNewer(a), SaveComparison::PocketNewer(b)) => a.same_as(b),
            (SaveComparison::MiSTerNewer(a), SaveComparison::MiSTerNewer(b)) => a.same_as(b),
            (SaveComparison::Conflict(a), SaveComparison::Conflict(b)) => a.same_as(b),
            (SaveComparison::NoSyncNeeded, SaveComparison::NoSyncNeeded) => true,
            _ => false,
        }
    }
}

impl<'a> PartialEq for SaveComparison<'a> {
    fn eq(&self, other: &SaveComparison<'a>) -> (r: bool) {
        self.same_as(other)
    }
}

impl<'a> vstd::std_specs::cmp::PartialEqSpecImpl for SaveComparison<'a> {
    open spec fn obeys_eq_spec() -> bool {
        true
    }

    open spec fn eq_spec(&self, other: &SaveComparison<'a>) -> bool {
        self@ == other@
    }
}

/// Classification of a matched pair against the last reconciliation time.
pub open spec fn classify_pair(pocket: SaveRecord, mister: SaveRecord, last_merge: int) -> Outcome {
    let pair = PairRecord { pocket, mister };
    if mister.date_modified < CLOCK_VALID_FROM {
        Outcome::Conflict(pair)
    } else if pocket.date_modified < last_merge && mister.date_modified < last_merge {
        Outcome::NoSyncNeeded
    } else if pocket.date_modified > last_merge && mister.date_modified > last_merge {
        Outcome::Conflict(pair)
    } else if mister.date_modified > pocket.date_modified {
        Outcome::MiSTerNewer(pair)
    } else {
        Outcome::PocketNewer(pair)
    }
}

pub fn get_comparison<'a>(
    pocket_save_info: &'a SaveInfo,
    mister_save_info: &'a SaveInfo,
    last_merge: i64,
) -> (r: SaveComparison<'a>)
    ensures
        r@ == classify_pair(pocket_save_info@, mister_save_info@, last_merge as int),
{
    let pair = SavePair { pocket: pocket_save_info, mister: mister_save_info };
    if mister_save_info.date_modified < CLOCK_VALID_FROM {
        // written while the remote clock was unset: never decide automatically
        return SaveComparison::Conflict(pair);
    }
    if pocket_save_info.date_modified < last_merge && mister_save_info.date_modified < last_merge {
        return SaveComparison::NoSyncNeeded;
    }
    if pocket_save_info.date_modified > last_merge && mister_save_info.date_modified > last_merge {
        return SaveComparison::Conflict(pair);
    }
    if mister_save_info.date_modified > pocket_save_info.date_modified {
        SaveComparison::MiSTerNewer(pair)
    } else {
        SaveComparison::PocketNewer(pair)
    }
}

/// Whether `entry` is a record of the given side for the same slot as `save`.
pub open spec fn matches_slot(entry: PlatformSave, from_mister: bool, save: SaveRecord) -> bool {
    match entry {
        PlatformSave::PocketSave(s) => !from_mister && s@.core == save.core && s@.game == save.game,
        PlatformSave::MiSTerSave(s) => from_mister && s@.core == save.core && s@.game == save.game,
    }
}

/// The record carried by an inventory entry.
pub open spec fn record_of(entry: PlatformSave) -> SaveRecord {
    match entry {
        PlatformSave::PocketSave(s) => s@,
        PlatformSave::MiSTerSave(s) => s@,
    }
}

/// The first entry at or after `i` that is a record of the given side for the
/// slot of `save`.
pub open spec fn first_match_from(
    saves: Seq<PlatformSave>,
    i: int,
    from_mister: bool,
    save: SaveRecord,
) -> Option<SaveRecord>
    decreases saves.len() - i,
{
    if i < 0 || i >= saves.len() {
        None
    } else if matches_slot(saves[i], from_mister, save) {
        Some(record_of(saves[i]))
    } else {
        first_match_from(saves, i + 1, from_mister, save)
    }
}

/// The first record of the given side in `saves` for the slot of `save`.
pub open spec fn first_match(saves: Seq<PlatformSave>, from_mister: bool, save: SaveRecord) -> Option<
    SaveRecord,
> {
    first_match_from(saves, 0, from_mister, save)
}

/// Model of an optional borrowed record.
pub open spec fn opt_view(r: Option<&SaveInfo>) -> Option<SaveRecord> {
    match r {
        Some(s) => Some(s@),
        None => None,
    }
}

fn find_matching<'a>(save: &SaveInfo, saves: &'a Vec<PlatformSave>, from_mister: bool) -> (r: Option<
    &'a SaveInfo,
>)
    ensures
        opt_view(r) == first_match(saves@, from_mister, save@),
{
    let mut i: usize = 0;
    while i < saves.len()
        invariant
            i <= saves.len(),
            first_match(saves@, from_mister, save@) == first_match_from(
                saves@,
                i as int,
                from_mister,
                save@,
            ),
        decreases saves.len() - i,
    {
        let entry: &'a PlatformSave = &saves[i];
        match entry {
            PlatformSave::PocketSave(s) => {
                if !from_mister && s.same_slot(save) {
                    return Some(s);
                }
            },
            PlatformSave::MiSTerSave(s) => {
                if from_mister && s.same_slot(save) {
                    return Some(s);
                }
            },
        }
        i = i + 1;
    }
    None
}

fn find_matching_mister_save<'a>(save: &SaveInfo, saves: &'a Vec<PlatformSave>) -> (r: Option<
    &'a SaveInfo,
>)
    ensures
        opt_view(r) == first_match(saves@, true, save@),
{
    find_matching(save, saves, true)
}

fn find_matching_pocket_save<'a>(save: &SaveInfo, saves: &'a Vec<PlatformSave>) -> (r: Option<
    &'a SaveInfo,
>)
    ensures
        opt_view(r) == first_match(saves@, false, save@),
{
    find_matching(save, saves, false)
}

/// The outcome for one save, given both inventories.
pub open spec fn classify(
    save: PlatformSave,
    pocket_saves: Seq<PlatformSave>,
    mister_saves: Seq<PlatformSave>,
    last_merge: int,
) -> Outcome {
    match save {
        PlatformSave::PocketSave(p) => match first_match(mister_saves, true, p@) {
            Some(m) => classify_pair(p@, m, last_merge),
            None => Outcome::PocketOnly(p@),
        },
        PlatformSave::MiSTerSave(m) => match first_match(pocket_saves, false, m@) {
            Some(p) => classify_pair(p, m@, last_merge),
            None => Outcome::MiSTerOnly(m@),
        },
    }
}

pub fn check_save<'a>(
    save: &'a PlatformSave,
    pocket_saves: &'a Vec<PlatformSave>,
    mister_saves: &'a Vec<PlatformSave>,
    last_merge: i64,
) -> (r: SaveComparison<'a>)
    ensures
        r@ == classify(*save, pocket_saves@, mister_saves@, last_merge as int),
{
    match save {
        PlatformSave::PocketSave(pocket_save_info) => {
            match find_matching_mister_save(pocket_save_info, mister_saves) {
                Some(mister_save_info) => get_comparison(
                    pocket_save_info,
                    mister_save_info,
                    last_merge,
                ),
                None => SaveComparison::PocketOnly(pocket_save_info),
            }
        },
        PlatformSave::MiSTerSave(mister_save_info) => {
            match find_matching_pocket_save(mister_save_info, pocket_saves) {
                Some(pocket_save_info) => get_comparison(
                    pocket_save_info,
                    mister_save_info,
                    last_merge,
                ),
                None => SaveComparison::MiSTerOnly(mister_save_info),
            }
        },
    }
}

/// The models of a sequence of outcomes.
pub open spec fn outcomes(v: Seq<SaveComparison>) -> Seq<Outcome> {
    v.map_values(|c: SaveComparison| c@)
}

/// Single forward pass: every `NoSyncNeeded` is kept, any other outcome only
/// where no equal one was kept before it.
pub open spec fn dedup(xs: Seq<Outcome>) -> Seq<Outcome>
    decreases xs.len(),
{
    if xs.len() == 0 {
        Seq::empty()
    } else {
        let kept = dedup(xs.drop_last());
        let x = xs.last();
        if x is NoSyncNeeded || !kept.contains(x) {
            kept.push(x)
        } else {
            kept
        }
    }
}

/// No outcome other than `NoSyncNeeded` occurs twice.
pub open spec fn no_repeats(ys: Seq<Outcome>) -> bool {
    forall|i: int, j: int|
        0 <= i < j < ys.len() && #[trigger] ys[i] == #[trigger] ys[j] ==> ys[i] is NoSyncNeeded
}

/// How many `NoSyncNeeded` entries a sequence holds.
pub open spec fn count_unchanged(xs: Seq<Outcome>) -> nat
    decreases xs.len(),
{
    if xs.len() == 0 {
        0
    } else {
        count_unchanged(xs.drop_last()) + if xs.last() is NoSyncNeeded {
            1nat
        } else {
            0nat
        }
    }
}

pub fn remove_duplicates<'a>(save_comparisons: Vec<SaveComparison<'a>>) -> (r: Vec<
    SaveComparison<'a>,
>)
    ensures
        outcomes(r@) == dedup(outcomes(save_comparisons@)),
{
    let mut singles: Vec<SaveComparison<'a>> = Vec::new();
    let mut i: usize = 0;
    while i < save_comparisons.len()
        invariant
            i <= save_comparisons.len(),
            outcomes(singles@) == dedup(outcomes(save_comparisons@.take(i as int))),
        decreases save_comparisons.len() - i,
    {
        let c = save_comparisons[i];
        let ghost before = outcomes(save_comparisons@.take(i as int));
        let ghost now = outcomes(save_comparisons@.take(i as int + 1));
        assert(now.drop_last() =~= before);
        assert(now.last() == c@);
        let keep = match c {
            SaveComparison::NoSyncNeeded => true,
            _ => !contains_outcome(&singles, &c),
        };
        if keep {
            singles.push(c);
            assert(outcomes(singles@) =~= dedup(before).push(c@));
        }
        i = i + 1;
    }
    assert(save_comparisons@.take(i as int) =~= save_comparisons@);
    singles
}

fn contains_outcome(v: &Vec<SaveComparison>, c: &SaveComparison) -> (r: bool)
    ensures
        r == outcomes(v@).contains(c@),
{
    let mut i: usize = 0;
    while i < v.len()
        invariant
            i <= v.len(),
            forall|j: int| 0 <= j < i ==> v@[j]@ != c@,
        decreases v.len() - i,
    {
        if v[i].same_as(c) {
            assert(outcomes(v@)[i as int] == c@);
            return true;
        }
        i = i + 1;
    }
    assert forall|j: int| 0 <= j < outcomes(v@).len() implies outcomes(v@)[j] != c@ by {
        assert(outcomes(v@)[j] == v@[j]@);
    }
    false
}

/// What deduplication keeps has no repeated outcome other than `NoSyncNeeded`.
pub proof fn lemma_dedup_no_repeats(xs: Seq<Outcome>)
    ensures
        no_repeats(dedup(xs)),
    decreases xs.len(),
{
    if xs.len() > 0 {
        lemma_dedup_no_repeats(xs.drop_last());
        let kept = dedup(xs.drop_last());
        let x = xs.last();
        if x is NoSyncNeeded || !kept.contains(x) {
            let ys = kept.push(x);
            assert forall|i: int, j: int|
                0 <= i < j < ys.len() && #[trigger] ys[i] == #[trigger] ys[j] implies ys[i] is NoSyncNeeded by {
                if j == ys.len() - 1 {
                    if !(x is NoSyncNeeded) {
                        assert(kept[i] == x);
                        assert(kept.contains(x));
                    }
                } else {
                    assert(kept[i] == ys[i] && kept[j] == ys[j]);
                }
            }
        }
    }
}

/// A sequence without repeated outcomes other than `NoSyncNeeded` is left as it is.
pub proof fn lemma_dedup_of_no_repeats(ys: Seq<Outcome>)
    requires
        no_repeats(ys),
    ensures
        dedup(ys) == ys,
    decreases ys.len(),
{
    if ys.len() > 0 {
        let front = ys.drop_last();
        assert(no_repeats(front)) by {
            assert forall|i: int, j: int|
                0 <= i < j < front.len() && #[trigger] front[i] == #[trigger] front[j] implies front[i] is NoSyncNeeded by {
                assert(ys[i] == front[i] && ys[j] == front[j]);
            }
        }
        lemma_dedup_of_no_repeats(front);
        let x = ys.last();
        if !(x is NoSyncNeeded) && front.contains(x) {
            let k = choose|k: int| 0 <= k < front.len() && front[k] == x;
            assert(ys[k] == ys[ys.len() - 1]);
        }
        assert(front.push(x) =~= ys);
    }
}

/// Deduplicating twice gives what deduplicating once gives.
pub proof fn lemma_dedup_idempotent(xs: Seq<Outcome>)
    ensures
        dedup(dedup(xs)) == dedup(xs),
{
    lemma_dedup_no_repeats(xs);
    lemma_dedup_of_no_repeats(dedup(xs));
}

/// Deduplication keeps every `NoSyncNeeded` entry and at least one copy of
/// every other outcome, adds nothing, and leaves no outcome other than
/// `NoSyncNeeded` twice.
pub proof fn lemma_dedup_retains(xs: Seq<Outcome>)
    ensures
        count_unchanged(dedup(xs)) == count_unchanged(xs),
        forall|x: Outcome| xs.contains(x) <==> #[trigger] dedup(xs).contains(x),
        no_repeats(dedup(xs)),
    decreases xs.len(),
{
    lemma_dedup_no_repeats(xs);
    if xs.len() > 0 {
        let front = xs.drop_last();
        lemma_dedup_retains(front);
        let kept = dedup(front);
        let x = xs.last();
        assert(xs =~= front.push(x));
        if x is NoSyncNeeded || !kept.contains(x) {
            assert(kept.push(x).drop_last() =~= kept);
            assert forall|y: Outcome| xs.contains(y) <==> #[trigger] kept.push(x).contains(y) by {
                if xs.contains(y) {
                    let k = choose|k: int| 0 <= k < xs.len() && xs[k] == y;
                    if k < xs.len() - 1 {
                        assert(front[k] == y);
                        assert(front.contains(y));
                        assert(kept.contains(y));
                        let m = choose|m: int| 0 <= m < kept.len() && kept[m] == y;
                        assert(kept.push(x)[m] == y);
                    } else {
                        assert(kept.push(x)[kept.len() as int] == y);
                    }
                }
                if kept.push(x).contains(y) {
                    let m = choose|m: int| 0 <= m < kept.len() + 1 && kept.push(x)[m] == y;
                    if m < kept.len() {
                        assert(kept[m] == y);
                        assert(kept.contains(y));
                        assert(front.contains(y));
                        let k = choose|k: int| 0 <= k < front.len() && front[k] == y;
                        assert(xs[k] == y);
                    } else {
                        assert(xs[xs.len() - 1] == y);
                    }
                }
            }
        } else {
            assert forall|y: Outcome| xs.contains(y) <==> #[trigger] kept.contains(y) by {
                if xs.contains(y) {
                    let k = choose|k: int| 0 <= k < xs.len() && xs[k] == y;
                    if k < xs.len() - 1 {
                        assert(front[k] == y);
                        assert(front.contains(y));
                    }
                }
                if kept.contains(y) {
                    assert(front.contains(y));
                    let k = choose|k: int| 0 <= k < front.len() && front[k] == y;
                    assert(xs[k] == y);
                }
            }
        }
    }
}

/// A remote timestamp from before the clock was set makes the pair a conflict,
/// whatever the pocket timestamp and the last reconciliation time.
pub proof fn lemma_unset_clock_conflict(pocket: SaveRecord, mister: SaveRecord, last_merge: int)
    requires
        mister.date_modified < CLOCK_VALID_FROM,
    ensures
        classify_pair(pocket, mister, last_merge) == Outcome::Conflict(
            PairRecord { pocket, mister },
        ),
{
}

/// With a trusted remote clock, a pair untouched on both sides since the last
/// reconciliation needs nothing.
pub proof fn lemma_both_unchanged(pocket: SaveRecord, mister: SaveRecord, last_merge: int)
    requires
        mister.date_modified >= CLOCK_VALID_FROM,
        pocket.date_modified < last_merge,
        mister.date_modified < last_merge,
    ensures
        classify_pair(pocket, mister, last_merge) == Outcome::NoSyncNeeded,
{
}

/// With a trusted remote clock, a pair changed on both sides since the last
/// reconciliation is a conflict.
pub proof fn lemma_both_changed(pocket: SaveRecord, mister: SaveRecord, last_merge: int)
    requires
        mister.date_modified >= CLOCK_VALID_FROM,
        pocket.date_modified > last_merge,
        mister.date_modified > last_merge,
    ensures
        classify_pair(pocket, mister, last_merge) == Outcome::Conflict(
            PairRecord { pocket, mister },
        ),
{
}

/// With a trusted remote clock, a pair changed on exactly one side since the
/// last reconciliation names that side as the newer one, and keeps both
/// records as they were.
pub proof fn lemma_one_side_changed(pocket: SaveRecord, mister: SaveRecord, last_merge: int)
    requires
        mister.date_modified >= CLOCK_VALID_FROM,
        (pocket.date_modified > last_merge) != (mister.date_modified > last_merge),
    ensures
        pocket.date_modified > last_merge ==> classify_pair(pocket, mister, last_merge)
            == Outcome::PocketNewer(PairRecord { pocket, mister }),
        mister.date_modified > last_merge ==> classify_pair(pocket, mister, last_merge)
            == Outcome::MiSTerNewer(PairRecord { pocket, mister }),
        pocket.date_modified > last_merge ==> newer_of(PairRecord { pocket, mister }) == pocket
            && older_of(PairRecord { pocket, mister }) == mister,
        mister.date_modified > last_merge ==> newer_of(PairRecord { pocket, mister }) == mister
            && older_of(PairRecord { pocket, mister }) == pocket,
{
}

} // verus!
