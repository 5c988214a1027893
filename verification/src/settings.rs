//! Durable application settings and the install manifest.
//!
//! The manifest maps an installed filename to the record of what was
//! installed under that name.  It is kept as a vector of pairs with unique
//! filenames; insertion order carries no meaning.

use vstd::prelude::*;

use crate::assoc::{
    kv_find, kv_find_first, kv_has, kv_insert, kv_prune, kv_remove, kv_wf,
    lemma_kv_find_extends, lemma_kv_find_push, lemma_kv_insert_props, lemma_kv_prune_props,
    lemma_kv_prune_push, lemma_kv_remove_props, lemma_kv_remove_push,
};

verus! {

/// Which remote catalog an entry or the whole application is bound to.
#[derive(Clone, Copy, Debug, PartialEq, Eq, Structural)]
pub enum ApiProvider {
    Modtale,
    CurseForge,
}

/// The colour theme of the user interface.
#[derive(Clone, Copy, Debug, PartialEq, Eq, Structural)]
pub enum AppTheme {
    Dark,
    Light,
}

/// One locally installed add-on, keyed in the manifest by its filename.
pub struct InstalledModEntry {
    pub mod_id: String,
    pub mod_name: String,
    pub file_id: String,
    pub version_name: String,
    pub api_provider: ApiProvider,
}

/// Mathematical value of an [`InstalledModEntry`].
#[verifier::ext_equal]
pub ghost struct EntryModel {
    pub mod_id: Seq<char>,
    pub mod_name: Seq<char>,
    pub file_id: Seq<char>,
    pub version_name: Seq<char>,
    pub api_provider: ApiProvider,
}

impl View for InstalledModEntry {
    type V = EntryModel;

    open spec fn view(&self) -> EntryModel {
        EntryModel {
            mod_id: self.mod_id@,
            mod_name: self.mod_name@,
            file_id: self.file_id@,
            version_name: self.version_name@,
            api_provider: self.api_provider,
        }
    }
}

impl Clone for InstalledModEntry {
    fn clone(&self) -> (r: Self)
        ensures
            r@ == self@,
    {
        InstalledModEntry {
            mod_id: self.mod_id.clone(),
            mod_name: self.mod_name.clone(),
            file_id: self.file_id.clone(),
            version_name: self.version_name.clone(),
            api_provider: self.api_provider,
        }
    }
}

/// The manifest as a mathematical value: filename/entry pairs.
pub type ManifestModel = Seq<(Seq<char>, EntryModel)>;

/// The first manifest entry recorded for the catalog item `mod_id`, with
/// its filename.
pub open spec fn manifest_find_by_mod_id(m: ManifestModel, mod_id: Seq<char>) -> Option<
    (Seq<char>, EntryModel),
> {
    kv_find_first(m, |e: EntryModel| e.mod_id == mod_id)
}

/// The durable application settings, including the install manifest.
pub struct AppSettings {
    pub api_key: Option<String>,
    pub game_folder: Option<String>,
    pub theme: AppTheme,
    pub api_provider: ApiProvider,
    pub installed_mods: Vec<(String, InstalledModEntry)>,
}

/// Mathematical value of [`AppSettings`].
#[verifier::ext_equal]
pub ghost struct SettingsModel {
    pub api_key: Option<Seq<char>>,
    pub game_folder: Option<Seq<char>>,
    pub theme: AppTheme,
    pub api_provider: ApiProvider,
    pub installed_mods: ManifestModel,
}

impl View for AppSettings {
    type V = SettingsModel;

    open spec fn view(&self) -> SettingsModel {
        SettingsModel {
            api_key: match self.api_key {
                Some(ref k) => Some(k@),
                None => None,
            },
            game_folder: match self.game_folder {
                Some(ref f) => Some(f@),
                None => None,
            },
            theme: self.theme,
            api_provider: self.api_provider,
            installed_mods: self.installed_mods@.map_values(
                |p: (String, InstalledModEntry)| (p.0@, p.1@),
            ),
        }
    }
}

impl AppSettings {
    /// The settings are valid when manifest filenames are unique.
    pub open spec fn wf(&self) -> bool {
        kv_wf(self@.installed_mods)
    }

    /// Record `entry` under `filename`, replacing any entry already recorded
    /// under that filename.  The caller persists the settings afterwards.
    pub fn add_installed_mod(&mut self, filename: String, entry: InstalledModEntry)
        requires
            old(self).wf(),
        ensures
            final(self).wf(),
            final(self)@.installed_mods == kv_insert(old(self)@.installed_mods, filename@, entry@),
            final(self)@.api_key == old(self)@.api_key,
            final(self)@.game_folder == old(self)@.game_folder,
            final(self)@.theme == old(self)@.theme,
            final(self)@.api_provider == old(self)@.api_provider,
    {
        proof {
            lemma_kv_insert_props(old(self)@.installed_mods, filename@, entry@);
        }
        self.retain_others(&filename);
        let ghost removed = self.installed_mods@;
        self.installed_mods.push((filename, entry));
        proof {
            assert(self@.installed_mods =~= removed.map_values(
                |p: (String, InstalledModEntry)| (p.0@, p.1@),
            ).push((filename@, entry@)));
        }
    }

    /// Drop any entry recorded under `filename`.  The caller persists the
    /// settings afterwards.
    pub fn remove_installed_mod(&mut self, filename: &String)
        requires
            old(self).wf(),
        ensures
            final(self).wf(),
            final(self)@.installed_mods == kv_remove(old(self)@.installed_mods, filename@),
            final(self)@.api_key == old(self)@.api_key,
            final(self)@.game_folder == old(self)@.game_folder,
            final(self)@.theme == old(self)@.theme,
            final(self)@.api_provider == old(self)@.api_provider,
    {
        proof {
            lemma_kv_remove_props(old(self)@.installed_mods, filename@);
        }
        self.retain_others(filename);
    }

    /// The entry recorded under `filename`, if any.
    pub fn get_installed_mod(&self, filename: &String) -> (r: Option<&InstalledModEntry>)
        ensures
            match r {
                Some(e) => kv_find(self@.installed_mods, filename@) == Some(e@),
                None => !kv_has(self@.installed_mods, filename@),
            },
    {
        let n = self.installed_mods.len();
        let mut i: usize = 0;
        while i < n
            invariant
                n == self.installed_mods.len(),
                0 <= i <= n,
                kv_find(self@.installed_mods.take(i as int), filename@) is None,
            decreases n - i,
        {
            let ghost prefix = self@.installed_mods.take(i as int);
            if string_eq(&self.installed_mods[i].0, filename) {
                proof {
                    lemma_kv_find_push(prefix, self@.installed_mods[i as int], filename@);
                    assert(self@.installed_mods.take(i + 1) =~= prefix.push(
                        self@.installed_mods[i as int],
                    ));
                    lemma_kv_find_extends(self@.installed_mods, filename@, i as int + 1);
                }
                return Some(&self.installed_mods[i].1);
            }
            proof {
                lemma_kv_find_push(prefix, self@.installed_mods[i as int], filename@);
                assert(self@.installed_mods.take(i + 1) =~= prefix.push(
                    self@.installed_mods[i as int],
                ));
            }
            i += 1;
        }
        proof {
            assert(self@.installed_mods.take(n as int) =~= self@.installed_mods);
        }
        None
    }

    /// Drop every manifest entry whose filename is not among `present`, the
    /// filenames actually found under the install root.  Entries whose files
    /// exist are untouched.  The caller persists the settings afterwards.
    pub fn prune_manifest(&mut self, present: &Vec<String>)
        requires
            old(self).wf(),
        ensures
            final(self).wf(),
            final(self)@.installed_mods == kv_prune(
                old(self)@.installed_mods,
                present.deep_view(),
            ),
            final(self)@.api_key == old(self)@.api_key,
            final(self)@.game_folder == old(self)@.game_folder,
            final(self)@.theme == old(self)@.theme,
            final(self)@.api_provider == old(self)@.api_provider,
    {
        proof {
            lemma_kv_prune_props(old(self)@.installed_mods, present.deep_view());
        }
        let n = self.installed_mods.len();
        let mut kept: Vec<(String, InstalledModEntry)> = Vec::new();
        let mut i: usize = 0;
        while i < n
            invariant
                n == self.installed_mods.len(),
                0 <= i <= n,
                self.installed_mods == old(self).installed_mods,
                kept@.map_values(|p: (String, InstalledModEntry)| (p.0@, p.1@)) == kv_prune(
                    self@.installed_mods.take(i as int),
                    present.deep_view(),
                ),
            decreases n - i,
        {
            let ghost prefix = self@.installed_mods.take(i as int);
            proof {
                lemma_kv_prune_push(prefix, self@.installed_mods[i as int], present.deep_view());
                assert(self@.installed_mods.take(i + 1) =~= prefix.push(
                    self@.installed_mods[i as int],
                ));
            }
            if vec_contains_string(present, &self.installed_mods[i].0) {
                let pair = (self.installed_mods[i].0.clone(), self.installed_mods[i].1.clone());
                kept.push(pair);
                proof {
                    assert(kept@.map_values(|p: (String, InstalledModEntry)| (p.0@, p.1@))
                        =~= kv_prune(self@.installed_mods.take(i + 1), present.deep_view()));
                }
            } else {
                proof {
                    assert(kept@.map_values(|p: (String, InstalledModEntry)| (p.0@, p.1@))
                        =~= kv_prune(self@.installed_mods.take(i + 1), present.deep_view()));
                }
            }
            i += 1;
        }
        proof {
            assert(self@.installed_mods.take(n as int) =~= self@.installed_mods);
        }
        self.installed_mods = kept;
    }

    /// Bind the application to `api_provider` with `api_key`.  The caller
    /// hands the new credential to that provider's catalog client before any
    /// further remote call.
    pub fn change_api(&mut self, api_provider: ApiProvider, api_key: String)
        ensures
            final(self)@ == (SettingsModel {
                api_provider,
                api_key: Some(api_key@),
                ..old(self)@
            }),
    {
        self.api_provider = api_provider;
        self.api_key = Some(api_key);
    }

    /// The stored credential, if any.
    pub fn get_api_key(&self) -> (r: Option<String>)
        ensures
            match r {
                Some(k) => self@.api_key == Some(k@),
                None => self@.api_key is None,
            },
    {
        match &self.api_key {
            Some(k) => Some(k.clone()),
            None => None,
        }
    }

    /// The active catalog provider.
    pub fn get_api_provider(&self) -> (r: ApiProvider)
        ensures
            r == self@.api_provider,
    {
        self.api_provider
    }

    /// Store a credential without switching providers.
    pub fn set_api_key(&mut self, api_key: String)
        ensures
            final(self)@ == (SettingsModel { api_key: Some(api_key@), ..old(self)@ }),
    {
        self.api_key = Some(api_key);
    }

    /// Switch providers without touching the credential.
    pub fn set_api_provider(&mut self, api_provider: ApiProvider)
        ensures
            final(self)@ == (SettingsModel { api_provider, ..old(self)@ }),
    {
        self.api_provider = api_provider;
    }

    /// The configured game folder, if any.
    pub fn get_game_folder(&self) -> (r: Option<String>)
        ensures
            match r {
                Some(f) => self@.game_folder == Some(f@),
                None => self@.game_folder is None,
            },
    {
        match &self.game_folder {
            Some(f) => Some(f.clone()),
            None => None,
        }
    }

    /// Configure or clear the game folder.
    pub fn set_game_folder(&mut self, game_folder: Option<String>)
        ensures
            final(self)@ == (SettingsModel {
                game_folder: match game_folder {
                    Some(f) => Some(f@),
                    None => None,
                },
                ..old(self)@
            }),
    {
        self.game_folder = game_folder;
    }

    /// The active theme.
    pub fn get_theme(&self) -> (r: AppTheme)
        ensures
            r == self@.theme,
    {
        self.theme
    }

    /// Set the theme.
    pub fn set_theme(&mut self, theme: AppTheme)
        ensures
            final(self)@ == (SettingsModel { theme, ..old(self)@ }),
    {
        self.theme = theme;
    }

    /// Flip between the two themes.
    pub fn switch_theme(&mut self)
        ensures
            final(self)@ == (SettingsModel {
                theme: match old(self)@.theme {
                    AppTheme::Dark => AppTheme::Light,
                    AppTheme::Light => AppTheme::Dark,
                },
                ..old(self)@
            }),
    {
        match self.theme {
            AppTheme::Light => {
                self.theme = AppTheme::Dark;
            },
            AppTheme::Dark => {
                self.theme = AppTheme::Light;
            },
        }
    }

    /// Keep only the pairs whose filename differs from `filename`.
    fn retain_others(&mut self, filename: &String)
        ensures
            final(self)@.installed_mods == kv_remove(old(self)@.installed_mods, filename@),
            final(self).api_key == old(self).api_key,
            final(self).game_folder == old(self).game_folder,
            final(self).theme == old(self).theme,
            final(self).api_provider == old(self).api_provider,
            final(self)@.api_key == old(self)@.api_key,
            final(self)@.game_folder == old(self)@.game_folder,
    {
        let n = self.installed_mods.len();
        let mut kept: Vec<(String, InstalledModEntry)> = Vec::new();
        let mut i: usize = 0;
        while i < n
            invariant
                n == self.installed_mods.len(),
                0 <= i <= n,
                self.installed_mods == old(self).installed_mods,
                kept@.map_values(|p: (String, InstalledModEntry)| (p.0@, p.1@)) == kv_remove(
                    self@.installed_mods.take(i as int),
                    filename@,
                ),
            decreases n - i,
        {
            let ghost prefix = self@.installed_mods.take(i as int);
            proof {
                lemma_kv_remove_push(prefix, self@.installed_mods[i as int], filename@);
                assert(self@.installed_mods.take(i + 1) =~= prefix.push(
                    self@.installed_mods[i as int],
                ));
            }
            if !string_eq(&self.installed_mods[i].0, filename) {
                let pair = (self.installed_mods[i].0.clone(), self.installed_mods[i].1.clone());
                kept.push(pair);
                proof {
                    assert(kept@.map_values(|p: (String, InstalledModEntry)| (p.0@, p.1@))
                        =~= kv_remove(self@.installed_mods.take(i + 1), filename@));
                }
            } else {
                proof {
                    assert(kept@.map_values(|p: (String, InstalledModEntry)| (p.0@, p.1@))
                        =~= kv_remove(self@.installed_mods.take(i + 1), filename@));
                }
            }
            i += 1;
        }
        proof {
            assert(self@.installed_mods.take(n as int) =~= self@.installed_mods);
        }
        self.installed_mods = kept;
    }
}

/// The settings a fresh installation starts from.
pub open spec fn default_settings_model() -> SettingsModel {
    SettingsModel {
        api_key: None,
        game_folder: None,
        theme: AppTheme::Dark,
        api_provider: ApiProvider::CurseForge,
        installed_mods: Seq::empty(),
    }
}

impl Default for AppSettings {
    /// Fresh settings: no credential, no game folder, dark theme, the
    /// CurseForge catalog, and an empty manifest.
    fn default() -> (r: Self)
        ensures
            r@ == default_settings_model(),
            r.wf(),
    {
        let r = AppSettings {
            api_key: None,
            game_folder: None,
            theme: AppTheme::Dark,
            api_provider: ApiProvider::CurseForge,
            installed_mods: Vec::new(),
        };
        proof {
            assert(r@.installed_mods =~= Seq::<(Seq<char>, EntryModel)>::empty());
            assert(r@ =~= default_settings_model());
        }
        r
    }
}

/// Equality of two strings by contents.
pub fn string_eq(a: &String, b: &String) -> (r: bool)
    ensures
        r == (a@ == b@),
{
    a.eq(b)
}

/// Whether `s` occurs among the strings of `v`, by contents.
pub fn vec_contains_string(v: &Vec<String>, s: &String) -> (r: bool)
    ensures
        r == v.deep_view().contains(s@),
{
    let n = v.len();
    let mut i: usize = 0;
    while i < n
        invariant
            n == v.len(),
            0 <= i <= n,
            forall|k: int| 0 <= k < i ==> v.deep_view()[k] != s@,
        decreases n - i,
    {
        if string_eq(&v[i], s) {
            assert(v.deep_view()[i as int] == s@);
            return true;
        }
        i += 1;
    }
    false
}

} // verus!
