use pocket_sync::listing::visible_file_names;
use pocket_sync::paths::{join_path, split_path};
use pocket_sync::save_compare::{SaveComparison, SavePair};
use pocket_sync::save_model::SaveInfo;
use pocket_sync::sync_plan::{MisterAction, PlanError, REMOTE_SAVES_ROOT};

fn save(game: &str, core: &str, path: &str, date_modified: i64) -> SaveInfo {
    SaveInfo::new(game.to_string(), core.to_string(), path.to_string(), date_modified)
}

#[test]
fn split_nested_path() {
    let (dir, name) = split_path("/media/fat/saves/GBA/Zelda.sav");
    assert_eq!(dir, "/media/fat/saves/GBA");
    assert_eq!(name, "Zelda.sav");
}

#[test]
fn split_root_and_bare_paths() {
    assert_eq!(split_path("/Zelda.sav"), ("/".to_string(), "Zelda.sav".to_string()));
    assert_eq!(split_path("Zelda.sav"), (String::new(), "Zelda.sav".to_string()));
    assert_eq!(split_path(""), (String::new(), String::new()));
}

#[test]
fn join_variants() {
    assert_eq!(join_path("/pocket", "Saves/gba/a.sav"), "/pocket/Saves/gba/a.sav");
    assert_eq!(join_path("/pocket/", "Saves/a.sav"), "/pocket/Saves/a.sav");
    assert_eq!(join_path("/pocket", "/abs/a.sav"), "/abs/a.sav");
    assert_eq!(join_path("", "a.sav"), "a.sav");
}

#[test]
fn remote_only_without_local_rom_is_skipped() {
    let m = save("Zelda", "GBA", "/media/fat/saves/GBA/Zelda.sav", 90000);
    let r = SaveComparison::MiSTerOnly(&m).plan_from_mister("/pocket", Vec::new());
    assert!(matches!(r, Ok(MisterAction::Skip)));
}

#[test]
fn remote_only_goes_to_every_discovered_destination() {
    let m = save("Zelda", "GBA", "/media/fat/saves/GBA/Zelda.sav", 90000);
    let found = vec!["/pocket/Saves/gba/Zelda.sav".to_string(), "/pocket/Saves/gba/Zelda (EU).sav".to_string()];
    match SaveComparison::MiSTerOnly(&m).plan_from_mister("/pocket", found.clone()) {
        Ok(MisterAction::Download(d)) => {
            assert_eq!(d.remote_dir, "/media/fat/saves/GBA");
            assert_eq!(d.file_name, "Zelda.sav");
            assert_eq!(d.destinations, found);
        }
        other => panic!("unexpected plan {:?}", other),
    }
}

#[test]
fn paired_download_targets_known_local_path() {
    let p = save("Zelda", "GBA", "Saves/gba/Zelda.sav", 90000);
    let m = save("Zelda", "GBA", "/media/fat/saves/GBA/Zelda.sav", 95000);
    let c = SaveComparison::Conflict(SavePair::new(&p, &m));
    match c.plan_from_mister("/pocket", vec!["/ignored.sav".to_string()]) {
        Ok(MisterAction::Download(d)) => {
            assert_eq!(d.remote_dir, "/media/fat/saves/GBA");
            assert_eq!(d.file_name, "Zelda.sav");
            assert_eq!(d.destinations, vec!["/pocket/Saves/gba/Zelda.sav".to_string()]);
        }
        other => panic!("unexpected plan {:?}", other),
    }
}

#[test]
fn download_needs_a_remote_save() {
    let p = save("Zelda", "GBA", "Saves/gba/Zelda.sav", 90000);
    assert!(matches!(
        SaveComparison::PocketOnly(&p).plan_from_mister("/pocket", Vec::new()),
        Err(PlanError::NoMisterSave)
    ));
    assert!(matches!(
        SaveComparison::NoSyncNeeded.plan_from_mister("/pocket", Vec::new()),
        Err(PlanError::NoMisterSave)
    ));
}

#[test]
fn upload_of_local_only_save_goes_to_core_directory() {
    let p = save("Zelda", "GBA", "/pocket/Saves/gba/Zelda.sav", 90000);
    let u = SaveComparison::PocketOnly(&p).plan_from_pocket().unwrap();
    assert_eq!(REMOTE_SAVES_ROOT, "/media/fat/saves/");
    assert_eq!(u.remote_dir, "/media/fat/saves/GBA");
    assert_eq!(u.file_name, "Zelda.sav");
    assert_eq!(u.local_path, "/pocket/Saves/gba/Zelda.sav");
}

#[test]
fn upload_of_paired_save_goes_next_to_remote_copy() {
    let p = save("Zelda", "GBA", "/pocket/Saves/gba/Zelda.sav", 96000);
    let m = save("Zelda", "GBA", "/media/fat/saves/GBA_alt/Zelda.sav", 90000);
    let u = SaveComparison::PocketNewer(SavePair::new(&p, &m)).plan_from_pocket().unwrap();
    assert_eq!(u.remote_dir, "/media/fat/saves/GBA_alt");
    assert_eq!(u.file_name, "Zelda.sav");
    assert_eq!(u.local_path, "/pocket/Saves/gba/Zelda.sav");
}

#[test]
fn upload_needs_a_local_save() {
    let m = save("Zelda", "GBA", "/media/fat/saves/GBA/Zelda.sav", 90000);
    assert!(matches!(SaveComparison::MiSTerOnly(&m).plan_from_pocket(), Err(PlanError::NoPocketSave)));
    assert!(matches!(SaveComparison::NoSyncNeeded.plan_from_pocket(), Err(PlanError::NoPocketSave)));
}

#[test]
fn outcome_sides() {
    let p = save("Zelda", "GBA", "a.sav", 1);
    let m = save("Zelda", "GBA", "b.sav", 2);
    let c = SaveComparison::MiSTerNewer(SavePair::new(&p, &m));
    assert_eq!(c.pocket_save(), Some(&p));
    assert_eq!(c.mister_save(), Some(&m));
    assert_eq!(SaveComparison::PocketOnly(&p).mister_save(), None);
    assert_eq!(SaveComparison::MiSTerOnly(&m).pocket_save(), None);
}

#[test]
fn hidden_entries_are_dropped() {
    let names = vec![".DS_Store".to_string(), "shot1.bmp".to_string(), "".to_string(), ".hidden".to_string(), "a.b".to_string()];
    assert_eq!(
        visible_file_names(names),
        vec!["shot1.bmp".to_string(), "".to_string(), "a.b".to_string()]
    );
}

#[test]
fn same_slot_compares_core_and_game() {
    let a = save("Zelda", "GBA", "a.sav", 1);
    let b = save("Zelda", "GBA", "b.sav", 2);
    let c = save("Zelda", "GB", "a.sav", 1);
    assert!(a.same_slot(&b));
    assert!(!a.same_slot(&c));
}
