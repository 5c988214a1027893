use hytale_mod_manager::local_mods::extract_base_name;
use hytale_mod_manager::text::truncate_path;

#[test]
fn base_name_with_numeric_version() {
    let (name, version) = extract_base_name("CoolMod-1.2.3.jar");
    assert_eq!(name, "CoolMod");
    assert_eq!(version, "1.2.3");
}

#[test]
fn base_name_with_v_prefixed_version() {
    let (name, version) = extract_base_name("CoolMod-v2.jar");
    assert_eq!(name, "CoolMod");
    assert_eq!(version, "v2");
}

#[test]
fn base_name_without_qualifying_hyphen() {
    let (name, version) = extract_base_name("WeirdName.jar");
    assert_eq!(name, "WeirdName");
    assert_eq!(version, "Unknown");
}

#[test]
fn base_name_strips_zip_extension() {
    let (name, version) = extract_base_name("Pack-7.zip");
    assert_eq!(name, "Pack");
    assert_eq!(version, "7");
}

#[test]
fn base_name_ignores_hyphen_before_letters() {
    let (name, version) = extract_base_name("My-Great-Mod.jar");
    assert_eq!(name, "My-Great-Mod");
    assert_eq!(version, "Unknown");
}

#[test]
fn base_name_splits_at_first_qualifying_hyphen() {
    let (name, version) = extract_base_name("My-Great-2.0-beta.jar");
    assert_eq!(name, "My-Great");
    assert_eq!(version, "2.0-beta");
}

#[test]
fn base_name_trailing_hyphen_does_not_split() {
    let (name, version) = extract_base_name("Odd-.jar");
    assert_eq!(name, "Odd-");
    assert_eq!(version, "Unknown");
}

#[test]
fn base_name_without_known_extension_keeps_whole_name() {
    let (name, version) = extract_base_name("notes-2.txt");
    assert_eq!(name, "notes");
    assert_eq!(version, "2.txt");
}

#[test]
fn truncate_short_path_unchanged() {
    assert_eq!(truncate_path("C:/Games/Hytale", 40), "C:/Games/Hytale");
}

#[test]
fn truncate_long_path_keeps_tail() {
    let p = "C:/Very/Long/Path/To/The/Game/Folder/Hytale";
    let t = truncate_path(p, 20);
    assert_eq!(t.chars().count(), 20);
    assert!(t.starts_with("..."));
    assert!(p.ends_with(&t[3..]));
}
