use hytale_mod_manager::local_mods::{InstallStatus, ModInstallInfo};
use hytale_mod_manager::mod_store::ModStore;
use hytale_mod_manager::settings::{ApiProvider, AppSettings, InstalledModEntry};

fn installed_settings() -> AppSettings {
    let mut s = AppSettings::default();
    s.add_installed_mod(
        "cool.jar".to_string(),
        InstalledModEntry {
            mod_id: "42".to_string(),
            mod_name: "Cool".to_string(),
            file_id: "v9".to_string(),
            version_name: "1.0".to_string(),
            api_provider: ApiProvider::CurseForge,
        },
    );
    s
}

#[test]
fn fresh_store_reports_nothing() {
    let store = ModStore::new();
    assert_eq!(store.get_status(&"42".to_string()), InstallStatus::NotInstalled);
    assert!(!store.is_processing(&"42".to_string()));
}

#[test]
fn get_info_resolves_and_caches_known_items() {
    let settings = installed_settings();
    let mut store = ModStore::new();
    let info = store.get_info(&"42".to_string(), &"v9".to_string(), &settings);
    assert_eq!(info.install_status, InstallStatus::Installed);
    // the cached report now answers even against emptied settings
    let empty = AppSettings::default();
    let cached = store.get_info(&"42".to_string(), &"v9".to_string(), &empty);
    assert_eq!(cached.install_status, InstallStatus::Installed);
    assert_eq!(store.get_status(&"42".to_string()), InstallStatus::Installed);
}

#[test]
fn get_info_does_not_cache_unknown_items() {
    let empty = AppSettings::default();
    let mut store = ModStore::new();
    let info = store.get_info(&"42".to_string(), &"v9".to_string(), &empty);
    assert_eq!(info.install_status, InstallStatus::NotInstalled);
    // nothing was cached, so a now-installed item resolves freshly
    let settings = installed_settings();
    let fresh = store.get_info(&"42".to_string(), &"v9".to_string(), &settings);
    assert_eq!(fresh.install_status, InstallStatus::Installed);
}

#[test]
fn set_info_and_remove_mod_update_the_cache() {
    let mut store = ModStore::new();
    let mut info = ModInstallInfo::default();
    info.install_status = InstallStatus::Outdated;
    store.set_info(&"42".to_string(), info);
    assert_eq!(store.get_status(&"42".to_string()), InstallStatus::Outdated);
    store.remove_mod(&"42".to_string());
    assert_eq!(store.get_status(&"42".to_string()), InstallStatus::NotInstalled);
}

#[test]
fn processing_flags_are_per_item() {
    let mut store = ModStore::new();
    store.set_processing(&"42".to_string(), true);
    assert!(store.is_processing(&"42".to_string()));
    assert!(!store.is_processing(&"7".to_string()));
    store.set_processing(&"42".to_string(), true);
    store.set_processing(&"42".to_string(), false);
    assert!(!store.is_processing(&"42".to_string()));
    store.set_processing(&"7".to_string(), false);
    assert!(!store.is_processing(&"7".to_string()));
}

#[test]
fn trigger_refresh_counts_up() {
    let mut store = ModStore::new();
    assert_eq!(store.refresh_trigger, 0);
    store.trigger_refresh();
    store.trigger_refresh();
    assert_eq!(store.refresh_trigger, 2);
}
