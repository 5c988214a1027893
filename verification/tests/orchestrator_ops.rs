use hytale_mod_manager::local_mods::ModsDir;
use hytale_mod_manager::mod_store::ModStore;
use hytale_mod_manager::orchestrator::{install, remove, update, ModError};
use hytale_mod_manager::settings::{ApiProvider, AppSettings};

fn ready_state() -> (ModStore, ModsDir, AppSettings) {
    let mut settings = AppSettings::default();
    settings.game_folder = Some("C:/Games/Hytale".to_string());
    (ModStore::new(), ModsDir::new(), settings)
}

fn do_install(
    store: &mut ModStore,
    dir: &mut ModsDir,
    settings: &mut AppSettings,
    mod_id: &str,
    file_id: &str,
    file_name: &str,
    bytes: &[u8],
) -> Result<(), ModError> {
    install(
        store,
        dir,
        settings,
        &file_name.to_string(),
        &bytes.to_vec(),
        mod_id.to_string(),
        "Cool Mod".to_string(),
        file_id.to_string(),
        file_id.to_string(),
        ApiProvider::CurseForge,
    )
}

#[test]
fn end_to_end_install_update_remove() {
    let (mut store, mut dir, mut settings) = ready_state();

    // install item "42" at version "v9"
    do_install(&mut store, &mut dir, &mut settings, "42", "v9", "cool-1.jar", b"bytes-v9")
        .expect("install");
    assert_eq!(settings.installed_mods.len(), 1);
    let e = settings.get_installed_mod(&"cool-1.jar".to_string()).expect("entry");
    assert_eq!(e.mod_id, "42");
    assert_eq!(e.file_id, "v9");
    assert_eq!(dir.read_file(&"cool-1.jar".to_string()).map(|d| d.as_slice()), Some(&b"bytes-v9"[..]));

    // update item "42" to version "v10" under a new filename
    let r = update(
        &mut store,
        &mut dir,
        &mut settings,
        &"cool-2.jar".to_string(),
        &b"bytes-v10".to_vec(),
        "42".to_string(),
        "Cool Mod".to_string(),
        "v10".to_string(),
        "2.0".to_string(),
        ApiProvider::CurseForge,
    );
    assert!(r.is_ok());
    assert!(settings.get_installed_mod(&"cool-1.jar".to_string()).is_none());
    let e2 = settings.get_installed_mod(&"cool-2.jar".to_string()).expect("new entry");
    assert_eq!(e2.file_id, "v10");
    assert!(!dir.has_file(&"cool-1.jar".to_string()));
    assert_eq!(
        dir.read_file(&"cool-2.jar".to_string()).map(|d| d.as_slice()),
        Some(&b"bytes-v10"[..])
    );

    // remove item "42"
    remove(&mut store, &mut dir, &mut settings, &"42".to_string()).expect("remove");
    assert!(settings.installed_mods.is_empty());
    assert!(!dir.has_file(&"cool-2.jar".to_string()));
}

#[test]
fn install_replaces_prior_installation_of_same_item() {
    let (mut store, mut dir, mut settings) = ready_state();
    do_install(&mut store, &mut dir, &mut settings, "42", "v1", "a.jar", b"one").expect("first");
    do_install(&mut store, &mut dir, &mut settings, "42", "v2", "b.jar", b"two").expect("second");
    assert_eq!(settings.installed_mods.len(), 1);
    assert!(settings.get_installed_mod(&"a.jar".to_string()).is_none());
    assert!(!dir.has_file(&"a.jar".to_string()));
    assert_eq!(dir.read_file(&"b.jar".to_string()).map(|d| d.as_slice()), Some(&b"two"[..]));
}

#[test]
fn install_overwrites_file_of_same_name() {
    let (mut store, mut dir, mut settings) = ready_state();
    do_install(&mut store, &mut dir, &mut settings, "1", "v1", "same.jar", b"old").expect("first");
    do_install(&mut store, &mut dir, &mut settings, "2", "v1", "same.jar", b"new").expect("second");
    assert_eq!(dir.read_file(&"same.jar".to_string()).map(|d| d.as_slice()), Some(&b"new"[..]));
    assert_eq!(settings.installed_mods.len(), 1);
}

#[test]
fn remove_twice_reports_not_found_second_time() {
    let (mut store, mut dir, mut settings) = ready_state();
    do_install(&mut store, &mut dir, &mut settings, "42", "v9", "cool.jar", b"x").expect("install");

    let first = remove(&mut store, &mut dir, &mut settings, &"42".to_string());
    assert!(first.is_ok());

    let second = remove(&mut store, &mut dir, &mut settings, &"42".to_string());
    assert!(matches!(second, Err(ModError::NotFound)));
    assert!(settings.installed_mods.is_empty());
}

#[test]
fn busy_item_is_rejected_without_changes() {
    let (mut store, mut dir, mut settings) = ready_state();
    do_install(&mut store, &mut dir, &mut settings, "42", "v9", "cool.jar", b"x").expect("install");
    store.set_processing(&"42".to_string(), true);

    let before_manifest = settings.installed_mods.len();
    let r = do_install(&mut store, &mut dir, &mut settings, "42", "v10", "cool2.jar", b"y");
    assert!(matches!(r, Err(ModError::Busy)));
    assert_eq!(settings.installed_mods.len(), before_manifest);
    assert!(!dir.has_file(&"cool2.jar".to_string()));

    let r2 = update(
        &mut store,
        &mut dir,
        &mut settings,
        &"cool2.jar".to_string(),
        &b"y".to_vec(),
        "42".to_string(),
        "Cool".to_string(),
        "v10".to_string(),
        "2".to_string(),
        ApiProvider::CurseForge,
    );
    assert!(matches!(r2, Err(ModError::Busy)));

    let r3 = remove(&mut store, &mut dir, &mut settings, &"42".to_string());
    assert!(matches!(r3, Err(ModError::Busy)));
    assert!(settings.get_installed_mod(&"cool.jar".to_string()).is_some());

    // once the lock clears, the same call goes through
    store.set_processing(&"42".to_string(), false);
    assert!(remove(&mut store, &mut dir, &mut settings, &"42".to_string()).is_ok());
}

#[test]
fn operations_on_other_items_proceed_while_one_is_busy() {
    let (mut store, mut dir, mut settings) = ready_state();
    store.set_processing(&"42".to_string(), true);
    do_install(&mut store, &mut dir, &mut settings, "7", "v1", "other.jar", b"z")
        .expect("other item installs");
}

#[test]
fn install_without_game_folder_is_a_config_error() {
    let mut settings = AppSettings::default();
    let mut store = ModStore::new();
    let mut dir = ModsDir::new();
    let r = do_install(&mut store, &mut dir, &mut settings, "42", "v9", "cool.jar", b"x");
    assert!(matches!(r, Err(ModError::Config)));
    assert!(settings.installed_mods.is_empty());
}

#[test]
fn update_without_prior_entry_degrades_to_install() {
    let (mut store, mut dir, mut settings) = ready_state();
    let r = update(
        &mut store,
        &mut dir,
        &mut settings,
        &"cool.jar".to_string(),
        &b"x".to_vec(),
        "42".to_string(),
        "Cool".to_string(),
        "v1".to_string(),
        "1".to_string(),
        ApiProvider::Modtale,
    );
    assert!(r.is_ok());
    assert!(settings.get_installed_mod(&"cool.jar".to_string()).is_some());
    assert!(dir.has_file(&"cool.jar".to_string()));
}

#[test]
fn prune_drops_exactly_the_entries_without_files() {
    let (mut store, mut dir, mut settings) = ready_state();
    do_install(&mut store, &mut dir, &mut settings, "1", "v1", "keep.jar", b"k").expect("keep");
    do_install(&mut store, &mut dir, &mut settings, "2", "v1", "gone.jar", b"g").expect("gone");

    // the file behind "gone.jar" disappears outside the manager
    dir.remove_file(&"gone.jar".to_string());

    let present = dir.file_names();
    settings.prune_manifest(&present);

    assert_eq!(settings.installed_mods.len(), 1);
    assert!(settings.get_installed_mod(&"keep.jar".to_string()).is_some());
    assert!(settings.get_installed_mod(&"gone.jar".to_string()).is_none());
}

#[test]
fn error_messages_name_the_failure() {
    assert_eq!(ModError::Config.message(), "No game folder set");
    assert_eq!(ModError::Busy.message(), "Operation already in progress");
    assert_eq!(ModError::NotFound.message(), "Not found");
    assert_eq!(ModError::NoDownloadUrl.message(), "No download URL available");
    assert_eq!(ModError::Transport("boom".to_string()).message(), "boom");
    assert_eq!(ModError::Parse("bad json".to_string()).message(), "bad json");
    assert_eq!(ModError::Io("disk".to_string()).message(), "disk");
    assert_eq!(
        ModError::InvalidIdentifier.message(),
        "Invalid item id for this provider"
    );
}
