use hytale_mod_manager::codec::{decode_settings, encode_settings, load_settings, u64_to_string};
use hytale_mod_manager::settings::{ApiProvider, AppSettings, AppTheme, InstalledModEntry};

fn entry(mod_id: &str, provider: ApiProvider) -> InstalledModEntry {
    InstalledModEntry {
        mod_id: mod_id.to_string(),
        mod_name: format!("Mod {}", mod_id),
        file_id: format!("f{}", mod_id),
        version_name: "1.4.2".to_string(),
        api_provider: provider,
    }
}

fn sample_settings() -> AppSettings {
    let mut s = AppSettings::default();
    s.api_key = Some("SECRET-REDACTED".to_string());
    s.game_folder = Some("C:/Games/Hytale".to_string());
    s.theme = AppTheme::Light;
    s.api_provider = ApiProvider::Modtale;
    s.add_installed_mod("cool-1.2.jar".to_string(), entry("42", ApiProvider::CurseForge));
    s.add_installed_mod("other.zip".to_string(), entry("ab-cd", ApiProvider::Modtale));
    s
}

fn assert_same(a: &AppSettings, b: &AppSettings) {
    assert_eq!(a.api_key, b.api_key);
    assert_eq!(a.game_folder, b.game_folder);
    assert_eq!(a.theme, b.theme);
    assert_eq!(a.api_provider, b.api_provider);
    assert_eq!(a.installed_mods.len(), b.installed_mods.len());
    for (filename, e) in &a.installed_mods {
        let found = b
            .installed_mods
            .iter()
            .find(|(f, _)| f == filename)
            .expect("filename missing after round trip");
        assert_eq!(found.1.mod_id, e.mod_id);
        assert_eq!(found.1.mod_name, e.mod_name);
        assert_eq!(found.1.file_id, e.file_id);
        assert_eq!(found.1.version_name, e.version_name);
        assert_eq!(found.1.api_provider, e.api_provider);
    }
}

#[test]
fn round_trip_sample_settings() {
    let s = sample_settings();
    let text = encode_settings(&s);
    let back = decode_settings(text.as_str()).expect("decoding the encoder's output");
    assert_same(&s, &back);
}

#[test]
fn round_trip_default_settings() {
    let s = AppSettings::default();
    let text = encode_settings(&s);
    assert_eq!(text, "00dc0:");
    let back = decode_settings(text.as_str()).expect("decoding the defaults");
    assert_same(&s, &back);
}

#[test]
fn round_trip_awkward_characters() {
    let mut s = AppSettings::default();
    s.game_folder = Some("dir:with 5:colons/and digits 42".to_string());
    s.add_installed_mod(
        "sp ace:colon-1.jar".to_string(),
        InstalledModEntry {
            mod_id: "x:1".to_string(),
            mod_name: "Naïve Mödchen".to_string(),
            file_id: String::new(),
            version_name: "0:0".to_string(),
            api_provider: ApiProvider::Modtale,
        },
    );
    let text = encode_settings(&s);
    let back = decode_settings(text.as_str()).expect("decoding awkward characters");
    assert_same(&s, &back);
}

#[test]
fn decode_rejects_trailing_characters() {
    let s = AppSettings::default();
    let mut text = encode_settings(&s);
    text.push('x');
    assert!(decode_settings(text.as_str()).is_none());
}

#[test]
fn decode_rejects_truncated_document() {
    let s = sample_settings();
    let text = encode_settings(&s);
    let cut: String = text.chars().take(text.chars().count() - 1).collect();
    assert!(decode_settings(cut.as_str()).is_none());
}

#[test]
fn decode_rejects_garbage() {
    assert!(decode_settings("not a settings document").is_none());
    assert!(decode_settings("").is_none());
    assert!(decode_settings("99999999999999999999999999:").is_none());
}

#[test]
fn decode_rejects_repeated_filenames() {
    let entry_a = "5:a.jar1:11:M1:f1:2c";
    let entry_b = "5:b.jar1:11:M1:f1:2c";
    let duplicated = format!("00dc2:{}{}", entry_a, entry_a);
    assert!(decode_settings(duplicated.as_str()).is_none());
    let distinct = format!("00dc2:{}{}", entry_a, entry_b);
    let decoded = decode_settings(distinct.as_str()).expect("distinct filenames decode");
    assert_eq!(decoded.installed_mods.len(), 2);
    assert_eq!(decoded.installed_mods[0].0, "a.jar");
    assert_eq!(decoded.installed_mods[1].0, "b.jar");
    assert_eq!(decoded.installed_mods[0].1.mod_id, "1");
}

#[test]
fn load_falls_back_to_defaults() {
    let missing = load_settings(None);
    assert!(missing.api_key.is_none());
    assert_eq!(missing.theme, AppTheme::Dark);
    assert_eq!(missing.api_provider, ApiProvider::CurseForge);
    assert!(missing.installed_mods.is_empty());

    let corrupt = load_settings(Some("###"));
    assert!(corrupt.installed_mods.is_empty());
    assert_eq!(corrupt.theme, AppTheme::Dark);
}

#[test]
fn load_reads_back_saved_settings() {
    let s = sample_settings();
    let text = encode_settings(&s);
    let back = load_settings(Some(text.as_str()));
    assert_same(&s, &back);
}

#[test]
fn numerals_are_plain_decimal() {
    assert_eq!(u64_to_string(0), "0");
    assert_eq!(u64_to_string(7), "7");
    assert_eq!(u64_to_string(12345), "12345");
    assert_eq!(u64_to_string(u64::MAX), "18446744073709551615");
}
