use hytale_mod_manager::scan::{filter_mods, name_le, scan_local_mods, sort_mods_by_name};
use hytale_mod_manager::settings::{ApiProvider, AppSettings, AppTheme, InstalledModEntry};
use hytale_mod_manager::text::str_eq;
use hytale_mod_manager::ui_mod::UiModVersion_dummy;

#[test]
fn scan_builds_sorted_records_from_manifest_and_inference() {
    let mut settings = AppSettings::default();
    settings.add_installed_mod(
        "known-1.0.jar".to_string(),
        InstalledModEntry {
            mod_id: "42".to_string(),
            mod_name: "zeta Known".to_string(),
            file_id: "v9".to_string(),
            version_name: "1.0".to_string(),
            api_provider: ApiProvider::CurseForge,
        },
    );
    let files = vec![
        "known-1.0.jar".to_string(),
        "Alpha-Strange-2.jar".to_string(),
        "readme.txt".to_string(),
        "beta-pack-v3.zip".to_string(),
    ];
    let records = scan_local_mods(&files, &settings);

    // the text file is skipped; the rest come back sorted by name, case-insensitively
    assert_eq!(records.len(), 3);
    assert_eq!(records[0].name, "Alpha Strange");
    assert_eq!(records[0].id, "0");
    assert_eq!(records[0].version.display_name, "2");
    assert_eq!(records[1].name, "beta pack");
    assert_eq!(records[1].version.display_name, "v3");
    assert_eq!(records[2].name, "zeta Known");
    assert_eq!(records[2].id, "42");
    assert_eq!(records[2].version.display_name, "1.0");
    assert_eq!(records[2].version.file_name, "known-1.0.jar");
    assert_eq!(records[0].summary, "Local file: Alpha-Strange-2.jar");
    assert_eq!(records[0].authors, "Local Install");
}

#[test]
fn sort_orders_case_insensitively() {
    let mk = |name: &str| {
        let mut u = hytale_mod_manager::ui_mod::UiMod {
            id: String::new(),
            name: name.to_string(),
            summary: String::new(),
            authors: String::new(),
            download_count: 0,
            categories: vec![],
            icon: String::new(),
            banner: String::new(),
            gallery_urls: vec![],
            website_url: String::new(),
            version: UiModVersion_dummy(),
        };
        u.version.file_name = format!("{}.jar", name);
        u
    };
    let sorted = sort_mods_by_name(vec![mk("banana"), mk("Apple"), mk("cherry"), mk("apple2")]);
    let names: Vec<&str> = sorted.iter().map(|u| u.name.as_str()).collect();
    assert_eq!(names, vec!["Apple", "apple2", "banana", "cherry"]);
}

#[test]
fn name_order_folds_ascii_case() {
    assert!(name_le("Apple", "banana"));
    assert!(name_le("apple", "Banana"));
    assert!(!name_le("cherry", "Banana"));
    assert!(name_le("same", "SAME"));
    assert!(name_le("SAME", "same"));
    assert!(name_le("ab", "abc"));
    assert!(!name_le("abc", "ab"));
}

#[test]
fn filter_matches_name_or_filename_case_insensitively() {
    let mk = |name: &str, file: &str| {
        let mut u = hytale_mod_manager::ui_mod::UiMod {
            id: String::new(),
            name: name.to_string(),
            summary: String::new(),
            authors: String::new(),
            download_count: 0,
            categories: vec![],
            icon: String::new(),
            banner: String::new(),
            gallery_urls: vec![],
            website_url: String::new(),
            version: UiModVersion_dummy(),
        };
        u.version.file_name = file.to_string();
        u
    };
    let mods = vec![
        mk("CoolMod", "cool-1.jar"),
        mk("Other", "strange.jar"),
        mk("Third", "COOLpack.zip"),
    ];
    let hits = filter_mods(&mods, "cool");
    let names: Vec<&str> = hits.iter().map(|u| u.name.as_str()).collect();
    assert_eq!(names, vec!["CoolMod", "Third"]);

    let all = filter_mods(&mods, "");
    assert_eq!(all.len(), 3);

    let none = filter_mods(&mods, "absent");
    assert!(none.is_empty());
}

#[test]
fn string_equality_is_by_contents() {
    assert!(str_eq("abc", "abc"));
    assert!(!str_eq("abc", "abd"));
    assert!(!str_eq("abc", "ab"));
    assert!(str_eq("", ""));
}

#[test]
fn theme_and_api_settings_round_through_accessors() {
    let mut s = AppSettings::default();
    assert_eq!(s.get_theme(), AppTheme::Dark);
    s.switch_theme();
    assert_eq!(s.get_theme(), AppTheme::Light);
    s.set_theme(AppTheme::Dark);
    assert_eq!(s.get_theme(), AppTheme::Dark);

    assert_eq!(s.get_api_provider(), ApiProvider::CurseForge);
    assert!(s.get_api_key().is_none());
    s.change_api(ApiProvider::Modtale, "SECRET-REDACTED".to_string());
    assert_eq!(s.get_api_provider(), ApiProvider::Modtale);
    assert_eq!(s.get_api_key().as_deref(), Some("SECRET-REDACTED"));

    s.set_api_provider(ApiProvider::CurseForge);
    s.set_api_key("other".to_string());
    assert_eq!(s.get_api_provider(), ApiProvider::CurseForge);
    assert_eq!(s.get_api_key().as_deref(), Some("other"));

    assert!(s.get_game_folder().is_none());
    s.set_game_folder(Some("D:/Hytale".to_string()));
    assert_eq!(s.get_game_folder().as_deref(), Some("D:/Hytale"));
    s.set_game_folder(None);
    assert!(s.get_game_folder().is_none());
}

#[test]
fn manifest_accessors_insert_replace_and_remove() {
    let mut s = AppSettings::default();
    let e = |id: &str| InstalledModEntry {
        mod_id: id.to_string(),
        mod_name: "M".to_string(),
        file_id: "f".to_string(),
        version_name: "1".to_string(),
        api_provider: ApiProvider::Modtale,
    };
    s.add_installed_mod("a.jar".to_string(), e("1"));
    s.add_installed_mod("b.jar".to_string(), e("2"));
    s.add_installed_mod("a.jar".to_string(), e("3"));
    assert_eq!(s.installed_mods.len(), 2);
    assert_eq!(s.get_installed_mod(&"a.jar".to_string()).unwrap().mod_id, "3");
    s.remove_installed_mod(&"a.jar".to_string());
    assert!(s.get_installed_mod(&"a.jar".to_string()).is_none());
    assert_eq!(s.installed_mods.len(), 1);
}
