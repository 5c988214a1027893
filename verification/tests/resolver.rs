use hytale_mod_manager::local_mods::{check_install_status, InstallStatus, ModInstallInfo};
use hytale_mod_manager::settings::{ApiProvider, AppSettings, InstalledModEntry};

fn entry(mod_id: &str, mod_name: &str, file_id: &str, version: &str) -> InstalledModEntry {
    InstalledModEntry {
        mod_id: mod_id.to_string(),
        mod_name: mod_name.to_string(),
        file_id: file_id.to_string(),
        version_name: version.to_string(),
        api_provider: ApiProvider::CurseForge,
    }
}

fn settings_with(entries: Vec<(&str, InstalledModEntry)>) -> AppSettings {
    let mut s = AppSettings::default();
    for (filename, e) in entries {
        s.add_installed_mod(filename.to_string(), e);
    }
    s
}

#[test]
fn resolve_installed_when_version_matches() {
    let s = settings_with(vec![("cool.jar", entry("42", "Cool", "v9", "1.0"))]);
    let info = check_install_status(&s, &"42".to_string(), &"v9".to_string());
    assert_eq!(info.install_status, InstallStatus::Installed);
    assert_eq!(info.mod_name, "Cool");
    assert_eq!(info.local_version.as_deref(), Some("1.0"));
    assert_eq!(info.local_file_name.as_deref(), Some("cool.jar"));
}

#[test]
fn resolve_outdated_when_version_differs() {
    let s = settings_with(vec![("cool.jar", entry("42", "Cool", "v9", "1.0"))]);
    let info = check_install_status(&s, &"42".to_string(), &"v10".to_string());
    assert_eq!(info.install_status, InstallStatus::Outdated);
    assert_eq!(info.local_file_name.as_deref(), Some("cool.jar"));
}

#[test]
fn resolve_not_installed_without_entry() {
    let s = settings_with(vec![("cool.jar", entry("42", "Cool", "v9", "1.0"))]);
    let info = check_install_status(&s, &"7".to_string(), &"v1".to_string());
    assert_eq!(info.install_status, InstallStatus::NotInstalled);
    assert_eq!(info.mod_name, "");
    assert!(info.local_version.is_none());
    assert!(info.local_file_name.is_none());
}

#[test]
fn resolve_on_empty_manifest() {
    let s = AppSettings::default();
    let info = check_install_status(&s, &"42".to_string(), &"v9".to_string());
    assert_eq!(info.install_status, InstallStatus::NotInstalled);
}

#[test]
fn resolve_tolerates_duplicate_item_ids_first_wins() {
    let s = settings_with(vec![
        ("a.jar", entry("42", "First", "v1", "1.0")),
        ("b.jar", entry("42", "Second", "v2", "2.0")),
    ]);
    let info = check_install_status(&s, &"42".to_string(), &"v1".to_string());
    assert_eq!(info.install_status, InstallStatus::Installed);
    assert_eq!(info.mod_name, "First");
    assert_eq!(info.local_file_name.as_deref(), Some("a.jar"));
}

#[test]
fn from_id_agrees_with_check_install_status() {
    let s = settings_with(vec![("cool.jar", entry("42", "Cool", "v9", "1.0"))]);
    let a = ModInstallInfo::from_id(&s, &"42".to_string(), &"v9".to_string());
    let b = check_install_status(&s, &"42".to_string(), &"v9".to_string());
    assert_eq!(a.install_status, b.install_status);
    assert_eq!(a.mod_name, b.mod_name);
    assert_eq!(a.local_version, b.local_version);
    assert_eq!(a.local_file_name, b.local_file_name);
}
