use hytale_mod_manager::curse_forge::{
    ApiFile, Author, Category, CurseForgeMod, FileHash, ModAsset, ModFile, ModLinks, Pagination,
};
use hytale_mod_manager::local_mods::InstallStatus;
use hytale_mod_manager::mod_tale::{ModTaleFile, ModTaleMod};
use hytale_mod_manager::orchestrator::ModError;
use hytale_mod_manager::ui_mod::{
    button_state_for, curseforge_sort_field, curseforge_total_pages, map_curseforge_files,
    modtale_sort_label, parse_curseforge_id, resolve_download, ButtonAction, UiMod, UiModVersion,
    UiModVersion_dummy,
};

fn mod_file(id: u32, name: &str, url: Option<&str>) -> ModFile {
    ModFile {
        id,
        game_id: 1,
        mod_id: 9,
        is_available: true,
        display_name: name.to_string(),
        file_name: format!("{}.jar", name),
        release_type: 2,
        file_status: 4,
        hashes: vec![FileHash { value: "abc".to_string(), algo: 1 }],
        file_date: "2024-01-01".to_string(),
        file_length: 10,
        download_count: 3,
        download_url: url.map(|u| u.to_string()),
        game_versions: vec!["1.0".to_string()],
        dependencies: vec![],
    }
}

fn cf_mod(id: u32, name: &str, files: Vec<ModFile>) -> CurseForgeMod {
    CurseForgeMod {
        id,
        game_id: 1,
        name: name.to_string(),
        slug: name.to_lowercase(),
        links: ModLinks {
            website_url: "https://example.test/mod".to_string(),
            wiki_url: None,
            issues_url: None,
            source_url: None,
        },
        summary: "A mod".to_string(),
        status: 1,
        download_count: 1234,
        is_featured: false,
        primary_category_id: None,
        categories: vec![
            Category {
                id: 1,
                game_id: 1,
                name: "Tools".to_string(),
                slug: "tools".to_string(),
                url: String::new(),
                icon_url: String::new(),
                is_class: None,
                class_id: None,
                parent_category_id: None,
            },
        ],
        class_id: None,
        authors: vec![
            Author { id: 1, name: "Ada".to_string(), url: String::new() },
            Author { id: 2, name: "Brian".to_string(), url: String::new() },
        ],
        logo: Some(ModAsset {
            id: 1,
            mod_id: id,
            title: String::new(),
            description: String::new(),
            thumbnail_url: "thumb.png".to_string(),
            url: "logo.png".to_string(),
        }),
        screenshots: vec![],
        main_file_id: 1,
        latest_files: files,
        date_created: String::new(),
        date_modified: String::new(),
        date_released: String::new(),
        allow_mod_distribution: None,
        game_popularity_rank: None,
        is_available: None,
        thumbs_up_count: None,
    }
}

#[test]
fn curseforge_item_maps_field_by_field() {
    let m = cf_mod(77, "CoolMod", vec![mod_file(5, "Cool 1.0", Some("https://dl/x.jar"))]);
    let u = UiMod::from_curseforge_api(&m);
    assert_eq!(u.id, "77");
    assert_eq!(u.name, "CoolMod");
    assert_eq!(u.authors, "Ada, Brian");
    assert_eq!(u.categories, vec!["Tools".to_string()]);
    assert_eq!(u.icon, "thumb.png");
    assert_eq!(u.banner, "thumb.png"); // no screenshots: banner falls back to the icon
    assert_eq!(u.download_count, 1234);
    assert_eq!(u.website_url, "https://example.test/mod");
    assert_eq!(u.version.file_id, "5");
    assert_eq!(u.version.display_name, "Cool 1.0");
    assert_eq!(u.version.release_type, 2);
}

#[test]
fn curseforge_item_without_files_gets_dummy_version() {
    let m = cf_mod(77, "CoolMod", vec![]);
    let u = UiMod::from_curseforge_api(&m);
    assert_eq!(u.version.display_name, "No files");
    assert_eq!(u.version.file_id, "");
    assert_eq!(u.version.release_type, 0);
    assert!(u.version.download_url.is_none());

    let d = UiModVersion_dummy();
    assert_eq!(d.display_name, "No files");
}

#[test]
fn curseforge_api_file_maps() {
    let files = vec![ApiFile {
        id: 31,
        display_name: "Nightly".to_string(),
        file_name: "nightly.jar".to_string(),
        file_date: "2024".to_string(),
        file_length: 1,
        release_type: 3,
        download_url: None,
        game_versions: vec![],
    }];
    let versions = map_curseforge_files(&files);
    assert_eq!(versions.len(), 1);
    assert_eq!(versions[0].file_id, "31");
    assert_eq!(versions[0].release_type, 3);
}

fn modtale_file(channel: Option<&str>, url: Option<&str>) -> ModTaleFile {
    ModTaleFile {
        id: "uuid-1".to_string(),
        version_number: "2.0".to_string(),
        supported_versions: vec!["1.0".to_string()],
        download_url: url.map(|u| u.to_string()),
        created_at: "2024".to_string(),
        download_count: 5,
        channel: channel.map(|c| c.to_string()),
    }
}

#[test]
fn modtale_channels_map_to_release_types() {
    assert_eq!(UiModVersion::from_modtale_file(&modtale_file(Some("BETA"), None)).release_type, 2);
    assert_eq!(UiModVersion::from_modtale_file(&modtale_file(Some("ALPHA"), None)).release_type, 3);
    assert_eq!(UiModVersion::from_modtale_file(&modtale_file(Some("RELEASE"), None)).release_type, 1);
    assert_eq!(UiModVersion::from_modtale_file(&modtale_file(None, None)).release_type, 1);
}

#[test]
fn modtale_filename_comes_from_url_or_version() {
    let with_url = UiModVersion::from_modtale_file(&modtale_file(None, Some("https://cdn/a/b/pack.jar")));
    assert_eq!(with_url.file_name, "pack.jar");
    let without = UiModVersion::from_modtale_file(&modtale_file(None, None));
    assert_eq!(without.file_name, "2.0.jar");
}

#[test]
fn modtale_item_maps_with_fallbacks() {
    let m = ModTaleMod {
        id: "uuid-9".to_string(),
        name: "Tale".to_string(),
        slug: None,
        summary: None,
        author: "Cleo".to_string(),
        icon_url: None,
        banner_url: None,
        download_count: 9,
        categories: None,
        created_at: String::new(),
        updated_at: String::new(),
        versions: Some(vec![modtale_file(Some("BETA"), Some("x/y.jar"))]),
    };
    let u = UiMod::from_modtale_api(&m);
    assert_eq!(u.id, "uuid-9");
    assert_eq!(u.summary, "");
    assert_eq!(u.icon, "");
    assert_eq!(u.banner, "");
    assert_eq!(u.website_url, "https://modtale.net/project/uuid-9");
    assert_eq!(u.version.file_name, "y.jar");
    assert_eq!(u.version.release_type, 2);
}

#[test]
fn total_pages_rounds_up() {
    let p = |total, size| Pagination { index: 0, page_size: size, total_count: total };
    assert_eq!(curseforge_total_pages(&p(0, 20)), 0);
    assert_eq!(curseforge_total_pages(&p(1, 20)), 1);
    assert_eq!(curseforge_total_pages(&p(20, 20)), 1);
    assert_eq!(curseforge_total_pages(&p(21, 20)), 2);
    assert_eq!(curseforge_total_pages(&p(5, 0)), 0);
    assert_eq!(curseforge_total_pages(&p(u32::MAX, 1)), u32::MAX);
}

#[test]
fn sort_selectors_map_to_provider_terms() {
    assert_eq!(modtale_sort_label(1), "relevance");
    assert_eq!(modtale_sort_label(2), "downloads");
    assert_eq!(modtale_sort_label(3), "updated");
    assert_eq!(modtale_sort_label(0), "downloads");
    assert_eq!(curseforge_sort_field(0), 1);
    assert_eq!(curseforge_sort_field(2), 3);
}

#[test]
fn curseforge_ids_are_checked() {
    assert_eq!(parse_curseforge_id("42").unwrap(), 42);
    assert_eq!(parse_curseforge_id("0").unwrap(), 0);
    assert_eq!(parse_curseforge_id("4294967295").unwrap(), u32::MAX);
    assert!(matches!(parse_curseforge_id(""), Err(ModError::InvalidIdentifier)));
    assert!(matches!(parse_curseforge_id("12a"), Err(ModError::InvalidIdentifier)));
    assert!(matches!(parse_curseforge_id("uuid-9"), Err(ModError::InvalidIdentifier)));
    assert!(matches!(parse_curseforge_id("4294967296"), Err(ModError::InvalidIdentifier)));
}

#[test]
fn resolve_download_demands_a_url() {
    let mut v = UiModVersion_dummy();
    assert!(matches!(resolve_download(&v), Err(ModError::NoDownloadUrl)));
    v.download_url = Some("https://dl/pack.jar".to_string());
    v.file_name = "pack.jar".to_string();
    let (name, url) = resolve_download(&v).unwrap();
    assert_eq!(name, "pack.jar");
    assert_eq!(url, "https://dl/pack.jar");
}

#[test]
fn button_states_follow_status_and_flags() {
    let working = button_state_for(InstallStatus::Installed, true, false);
    assert_eq!(working.text, "WORKING...");
    assert!(working.disabled);
    assert_eq!(working.action, ButtonAction::NoAction);

    let retry = button_state_for(InstallStatus::Outdated, false, true);
    assert_eq!(retry.text, "RETRY");
    assert_eq!(retry.action, ButtonAction::Update);

    let install = button_state_for(InstallStatus::NotInstalled, false, false);
    assert_eq!(install.text, "INSTALL");
    assert_eq!(install.class, "btn-brand");
    assert_eq!(install.action, ButtonAction::Install);

    let remove = button_state_for(InstallStatus::Installed, false, false);
    assert_eq!(remove.text, "REMOVE");
    assert_eq!(remove.action, ButtonAction::Remove);
}
