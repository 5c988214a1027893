//! Local installation state: the install-status resolver, filename-based
//! name inference, and the mutating operations on the mods directory and the
//! manifest.
//!
//! The mods directory is modelled explicitly as a value: a list of
//! (filename, contents) pairs with unique names.  The application mirrors
//! every change of the model onto the real directory.

use vstd::prelude::*;

use crate::assoc::{
    kv_find, kv_has, kv_insert, kv_remove, kv_wf, lemma_kv_find_extends, lemma_kv_find_push,
    lemma_kv_insert_props, lemma_kv_remove_props, lemma_kv_remove_push,
};
use crate::settings::{
    manifest_find_by_mod_id, string_eq, ApiProvider, AppSettings, EntryModel, InstalledModEntry,
    ManifestModel,
};

verus! {

/// How a catalog item relates to what is installed locally.
#[derive(Clone, Copy, Debug, PartialEq, Eq, Structural)]
pub enum InstallStatus {
    Installed,
    NotInstalled,
    Outdated,
}

impl Default for InstallStatus {
    /// An unknown item counts as not installed.
    fn default() -> (r: Self)
        ensures
            r == InstallStatus::NotInstalled,
    {
        InstallStatus::NotInstalled
    }
}

/// What the resolver reports for one catalog item.
pub struct ModInstallInfo {
    pub mod_name: String,
    pub local_version: Option<String>,
    pub local_file_name: Option<String>,
    pub install_status: InstallStatus,
}

/// Mathematical value of a [`ModInstallInfo`].
#[verifier::ext_equal]
pub ghost struct InfoModel {
    pub mod_name: Seq<char>,
    pub local_version: Option<Seq<char>>,
    pub local_file_name: Option<Seq<char>>,
    pub install_status: InstallStatus,
}

impl View for ModInstallInfo {
    type V = InfoModel;

    open spec fn view(&self) -> InfoModel {
        InfoModel {
            mod_name: self.mod_name@,
            local_version: match self.local_version {
                Some(ref v) => Some(v@),
                None => None,
            },
            local_file_name: match self.local_file_name {
                Some(ref f) => Some(f@),
                None => None,
            },
            install_status: self.install_status,
        }
    }
}

impl Clone for ModInstallInfo {
    fn clone(&self) -> (r: Self)
        ensures
            r@ == self@,
    {
        ModInstallInfo {
            mod_name: self.mod_name.clone(),
            local_version: clone_opt_string(&self.local_version),
            local_file_name: clone_opt_string(&self.local_file_name),
            install_status: self.install_status,
        }
    }
}

impl Default for ModInstallInfo {
    /// The report for an item with no local trace.
    fn default() -> (r: Self)
        ensures
            r@ == not_installed_info(),
    {
        ModInstallInfo {
            mod_name: String::new(),
            local_version: None,
            local_file_name: None,
            install_status: InstallStatus::NotInstalled,
        }
    }
}

/// The report for an item with no manifest entry.
pub open spec fn not_installed_info() -> InfoModel {
    InfoModel {
        mod_name: Seq::empty(),
        local_version: None,
        local_file_name: None,
        install_status: InstallStatus::NotInstalled,
    }
}

/// What resolving a catalog item against a manifest yields: the first entry
/// recorded for the item decides; equal version ids mean `Installed`, a
/// differing id means `Outdated`, no entry means `NotInstalled`.
pub open spec fn resolve_model(
    m: ManifestModel,
    mod_id: Seq<char>,
    latest_file_id: Seq<char>,
) -> InfoModel {
    match manifest_find_by_mod_id(m, mod_id) {
        Some(p) => InfoModel {
            mod_name: p.1.mod_name,
            local_version: Some(p.1.version_name),
            local_file_name: Some(p.0),
            install_status: if p.1.file_id == latest_file_id {
                InstallStatus::Installed
            } else {
                InstallStatus::Outdated
            },
        },
        None => not_installed_info(),
    }
}

/// The three resolver outcomes, case by case: the status is `Installed`
/// exactly when an entry for the item exists and carries the latest version
/// id, `Outdated` exactly when an entry exists with a different id, and
/// `NotInstalled` exactly when no entry for the item exists.
pub proof fn lemma_resolve_cases(m: ManifestModel, mod_id: Seq<char>, latest_file_id: Seq<char>)
    ensures
        resolve_model(m, mod_id, latest_file_id).install_status == InstallStatus::NotInstalled
            <==> manifest_find_by_mod_id(m, mod_id) is None,
        resolve_model(m, mod_id, latest_file_id).install_status == InstallStatus::Installed <==> (
        manifest_find_by_mod_id(m, mod_id) matches Some(p) && p.1.file_id == latest_file_id),
        resolve_model(m, mod_id, latest_file_id).install_status == InstallStatus::Outdated <==> (
        manifest_find_by_mod_id(m, mod_id) matches Some(p) && p.1.file_id != latest_file_id),
{
}

/// Resolve the install status of catalog item `mod_id` whose newest remote
/// version id is `latest_file_id`.
pub fn check_install_status(
    settings: &AppSettings,
    mod_id: &String,
    latest_file_id: &String,
) -> (r: ModInstallInfo)
    ensures
        r@ == resolve_model(settings@.installed_mods, mod_id@, latest_file_id@),
{
    let ghost m = settings@.installed_mods;
    let ghost pred = |e: EntryModel| e.mod_id == mod_id@;
    let n = settings.installed_mods.len();
    let mut i: usize = 0;
    while i < n
        invariant
            n == settings.installed_mods.len(),
            0 <= i <= n,
            m == settings@.installed_mods,
            pred == (|e: EntryModel| e.mod_id == mod_id@),
            crate::assoc::kv_find_first(m.take(i as int), pred) is None,
        decreases n - i,
    {
        let ghost prefix = m.take(i as int);
        proof {
            crate::assoc::lemma_kv_find_first_push(prefix, m[i as int], pred);
            assert(m.take(i + 1) =~= prefix.push(m[i as int]));
        }
        let pair = &settings.installed_mods[i];
        if string_eq(&pair.1.mod_id, mod_id) {
            proof {
                crate::assoc::lemma_kv_find_first_extends(m, pred, i as int + 1);
            }
            let status = if string_eq(&pair.1.file_id, latest_file_id) {
                InstallStatus::Installed
            } else {
                InstallStatus::Outdated
            };
            return ModInstallInfo {
                mod_name: pair.1.mod_name.clone(),
                local_version: Some(pair.1.version_name.clone()),
                local_file_name: Some(pair.0.clone()),
                install_status: status,
            };
        }
        i += 1;
    }
    proof {
        assert(m.take(n as int) =~= m);
    }
    ModInstallInfo {
        mod_name: String::new(),
        local_version: None,
        local_file_name: None,
        install_status: InstallStatus::NotInstalled,
    }
}

impl ModInstallInfo {
    /// Resolve by catalog item id; same answer as [`check_install_status`].
    pub fn from_id(settings: &AppSettings, mod_id: &String, latest_file_id: &String) -> (r: Self)
        ensures
            r@ == resolve_model(settings@.installed_mods, mod_id@, latest_file_id@),
    {
        check_install_status(settings, mod_id, latest_file_id)
    }
}

/// The filename under which catalog item `mod_id` is recorded, if any.
pub fn find_installed_filename(settings: &AppSettings, mod_id: &String) -> (r: Option<String>)
    ensures
        match r {
            Some(f) => manifest_find_by_mod_id(settings@.installed_mods, mod_id@) matches Some(p)
                && p.0 == f@,
            None => manifest_find_by_mod_id(settings@.installed_mods, mod_id@) is None,
        },
{
    let info = check_install_status(settings, mod_id, mod_id);
    info.local_file_name
}

/// The mods directory as a mathematical value: filename/contents pairs.
pub type DirModel = Seq<(Seq<char>, Seq<u8>)>;

/// The contents of the mods directory under the install root, as the
/// application last observed or produced them.  Filenames are unique; there
/// are no subdirectories.
pub struct ModsDir {
    pub files: Vec<(String, Vec<u8>)>,
}

impl View for ModsDir {
    type V = DirModel;

    open spec fn view(&self) -> DirModel {
        self.files@.map_values(|p: (String, Vec<u8>)| (p.0@, p.1@))
    }
}

impl ModsDir {
    /// The directory is valid when filenames are unique.
    pub open spec fn wf(&self) -> bool {
        kv_wf(self@)
    }

    /// An empty directory, as created on first use.
    pub fn new() -> (r: Self)
        ensures
            r@ == Seq::<(Seq<char>, Seq<u8>)>::empty(),
            r.wf(),
    {
        let r = ModsDir { files: Vec::new() };
        proof {
            assert(r@ =~= Seq::<(Seq<char>, Seq<u8>)>::empty());
        }
        r
    }

    /// Whether a file named `name` exists.
    pub fn has_file(&self, name: &String) -> (r: bool)
        ensures
            r == kv_has(self@, name@),
    {
        self.read_file(name).is_some()
    }

    /// The contents of the file named `name`, if it exists.
    pub fn read_file(&self, name: &String) -> (r: Option<&Vec<u8>>)
        ensures
            match r {
                Some(d) => kv_find(self@, name@) == Some(d@),
                None => !kv_has(self@, name@),
            },
    {
        let n = self.files.len();
        let mut i: usize = 0;
        while i < n
            invariant
                n == self.files.len(),
                0 <= i <= n,
                kv_find(self@.take(i as int), name@) is None,
            decreases n - i,
        {
            let ghost prefix = self@.take(i as int);
            proof {
                lemma_kv_find_push(prefix, self@[i as int], name@);
                assert(self@.take(i + 1) =~= prefix.push(self@[i as int]));
            }
            if string_eq(&self.files[i].0, name) {
                proof {
                    lemma_kv_find_extends(self@, name@, i as int + 1);
                }
                return Some(&self.files[i].1);
            }
            i += 1;
        }
        proof {
            assert(self@.take(n as int) =~= self@);
        }
        None
    }

    /// The filenames present, in directory order.
    pub fn file_names(&self) -> (r: Vec<String>)
        ensures
            r.deep_view() == self@.map_values(|p: (Seq<char>, Seq<u8>)| p.0),
    {
        let ghost f = |p: (Seq<char>, Seq<u8>)| p.0;
        let n = self.files.len();
        let mut r: Vec<String> = Vec::new();
        let mut i: usize = 0;
        while i < n
            invariant
                n == self.files.len(),
                0 <= i <= n,
                f == (|p: (Seq<char>, Seq<u8>)| p.0),
                r.deep_view() == self@.take(i as int).map_values(f),
            decreases n - i,
        {
            let ghost prev = r.deep_view();
            r.push(self.files[i].0.clone());
            proof {
                let ghost rhs = self@.take(i + 1).map_values(f);
                assert(prev.len() == i);
                assert(r.deep_view().len() == i + 1);
                assert(rhs.len() == i + 1);
                assert forall|k: int| 0 <= k < i + 1 implies #[trigger] r.deep_view()[k] == rhs[
                    k
                ] by {
                    assert(rhs[k] == self@[k].0);
                    if k < i {
                        assert(r.deep_view()[k] == prev[k]);
                        assert(prev[k] == self@[k].0);
                    } else {
                        assert(r.deep_view()[k] == self@[i as int].0);
                    }
                }
                assert(r.deep_view() =~= rhs);
            }
            i += 1;
        }
        proof {
            assert(self@.take(n as int) =~= self@);
            assert(self@.map_values(f) =~= self@.map_values(|p: (Seq<char>, Seq<u8>)| p.0));
        }
        r
    }

    /// Write `data` under `name`, overwriting any file of that exact name.
    pub fn write_file(&mut self, name: String, data: Vec<u8>)
        requires
            old(self).wf(),
        ensures
            final(self).wf(),
            final(self)@ == kv_insert(old(self)@, name@, data@),
    {
        proof {
            lemma_kv_insert_props(old(self)@, name@, data@);
        }
        self.retain_others(&name);
        let ghost removed = self.files@;
        self.files.push((name, data));
        proof {
            assert(self@ =~= removed.map_values(|p: (String, Vec<u8>)| (p.0@, p.1@)).push(
                (name@, data@),
            ));
        }
    }

    /// Delete the file named `name`; a missing file is not an error.
    pub fn remove_file(&mut self, name: &String)
        requires
            old(self).wf(),
        ensures
            final(self).wf(),
            final(self)@ == kv_remove(old(self)@, name@),
    {
        proof {
            lemma_kv_remove_props(old(self)@, name@);
        }
        self.retain_others(name);
    }

    /// Keep only the files whose name differs from `name`.
    fn retain_others(&mut self, name: &String)
        ensures
            final(self)@ == kv_remove(old(self)@, name@),
    {
        let n = self.files.len();
        let mut kept: Vec<(String, Vec<u8>)> = Vec::new();
        let mut i: usize = 0;
        while i < n
            invariant
                n == self.files.len(),
                0 <= i <= n,
                self.files == old(self).files,
                kept@.map_values(|p: (String, Vec<u8>)| (p.0@, p.1@)) == kv_remove(
                    self@.take(i as int),
                    name@,
                ),
            decreases n - i,
        {
            let ghost prefix = self@.take(i as int);
            proof {
                lemma_kv_remove_push(prefix, self@[i as int], name@);
                assert(self@.take(i + 1) =~= prefix.push(self@[i as int]));
            }
            if !string_eq(&self.files[i].0, name) {
                let pair = (self.files[i].0.clone(), clone_bytes(&self.files[i].1));
                kept.push(pair);
                proof {
                    assert(kept@.map_values(|p: (String, Vec<u8>)| (p.0@, p.1@)) =~= kv_remove(
                        self@.take(i + 1),
                        name@,
                    ));
                }
            } else {
                proof {
                    assert(kept@.map_values(|p: (String, Vec<u8>)| (p.0@, p.1@)) =~= kv_remove(
                        self@.take(i + 1),
                        name@,
                    ));
                }
            }
            i += 1;
        }
        proof {
            assert(self@.take(n as int) =~= self@);
        }
        self.files = kept;
    }
}

/// What installing one artifact does to the manifest and the directory: any
/// prior installation of the same catalog item loses its file and its
/// manifest entry, then the new file is written (overwriting a file of the
/// same name) and the new entry recorded under the new filename.
pub open spec fn install_transition(
    m: ManifestModel,
    d: DirModel,
    file_name: Seq<char>,
    data: Seq<u8>,
    e: EntryModel,
) -> (ManifestModel, DirModel) {
    let (m1, d1) = match manifest_find_by_mod_id(m, e.mod_id) {
        Some(p) => (kv_remove(m, p.0), kv_remove(d, p.0)),
        None => (m, d),
    };
    (kv_insert(m1, file_name, e), kv_insert(d1, file_name, data))
}

/// Install one downloaded artifact: write `data` under `file_name` in the
/// mods directory and record the manifest entry, after clearing any prior
/// installation of the same catalog item.  The caller persists the settings
/// afterwards.
pub fn install_mod(
    dir: &mut ModsDir,
    file_name: &String,
    data: &Vec<u8>,
    mod_id: String,
    mod_name: String,
    file_id: String,
    version_name: String,
    api_provider: ApiProvider,
    settings: &mut AppSettings,
)
    requires
        old(dir).wf(),
        old(settings).wf(),
    ensures
        final(dir).wf(),
        final(settings).wf(),
        final(settings)@.installed_mods == install_transition(
            old(settings)@.installed_mods,
            old(dir)@,
            file_name@,
            data@,
            EntryModel {
                mod_id: mod_id@,
                mod_name: mod_name@,
                file_id: file_id@,
                version_name: version_name@,
                api_provider,
            },
        ).0,
        final(dir)@ == install_transition(
            old(settings)@.installed_mods,
            old(dir)@,
            file_name@,
            data@,
            EntryModel {
                mod_id: mod_id@,
                mod_name: mod_name@,
                file_id: file_id@,
                version_name: version_name@,
                api_provider,
            },
        ).1,
        final(settings)@.api_key == old(settings)@.api_key,
        final(settings)@.game_folder == old(settings)@.game_folder,
        final(settings)@.theme == old(settings)@.theme,
        final(settings)@.api_provider == old(settings)@.api_provider,
{
    let old_file = find_installed_filename(settings, &mod_id);
    if let Some(old_name) = old_file {
        dir.remove_file(&old_name);
        settings.remove_installed_mod(&old_name);
    }
    dir.write_file(file_name.clone(), clone_bytes(data));
    let entry = InstalledModEntry { mod_id, mod_name, file_id, version_name, api_provider };
    settings.add_installed_mod(file_name.clone(), entry);
}

/// Delete the file named `file_name` (a missing file is not an error) and
/// drop its manifest entry.  The caller persists the settings afterwards.
pub fn remove_mod(dir: &mut ModsDir, file_name: &String, settings: &mut AppSettings)
    requires
        old(dir).wf(),
        old(settings).wf(),
    ensures
        final(dir).wf(),
        final(settings).wf(),
        final(dir)@ == kv_remove(old(dir)@, file_name@),
        final(settings)@.installed_mods == kv_remove(
            old(settings)@.installed_mods,
            file_name@,
        ),
        final(settings)@.api_key == old(settings)@.api_key,
        final(settings)@.game_folder == old(settings)@.game_folder,
        final(settings)@.theme == old(settings)@.theme,
        final(settings)@.api_provider == old(settings)@.api_provider,
{
    dir.remove_file(file_name);
    settings.remove_installed_mod(file_name);
}

/// Clone a byte vector by contents.
pub fn clone_bytes(v: &Vec<u8>) -> (r: Vec<u8>)
    ensures
        r@ == v@,
{
    let mut r: Vec<u8> = Vec::new();
    let n = v.len();
    let mut i: usize = 0;
    while i < n
        invariant
            n == v.len(),
            0 <= i <= n,
            r@ == v@.take(i as int),
        decreases n - i,
    {
        r.push(v[i]);
        proof {
            assert(r@ =~= v@.take(i + 1));
        }
        i += 1;
    }
    proof {
        assert(v@.take(n as int) =~= v@);
    }
    r
}

/// Clone an optional string by contents.
pub fn clone_opt_string(o: &Option<String>) -> (r: Option<String>)
    ensures
        match o {
            Some(s) => r matches Some(t) && t@ == s@,
            None => r is None,
        },
{
    match o {
        Some(s) => Some(s.clone()),
        None => None,
    }
}


/// The package extension for jar archives.
pub open spec fn jar_ext() -> Seq<char> {
    seq!['.', 'j', 'a', 'r']
}

/// The package extension for zip archives.
pub open spec fn zip_ext() -> Seq<char> {
    seq!['.', 'z', 'i', 'p']
}

/// The filename without a trailing package extension.
pub open spec fn strip_ext(f: Seq<char>) -> Seq<char> {
    if f.len() >= 4 && f.subrange(f.len() - 4, f.len() as int) == jar_ext() {
        f.subrange(0, f.len() - 4)
    } else if f.len() >= 4 && f.subrange(f.len() - 4, f.len() as int) == zip_ext() {
        f.subrange(0, f.len() - 4)
    } else {
        f
    }
}

/// A character that may open a version suffix: a digit or the letter `v`.
pub open spec fn is_version_start(c: char) -> bool {
    crate::codec::is_digit(c) || c == 'v'
}

/// Whether the hyphen at `i` starts the version part of a stem.
pub open spec fn is_split_at(s: Seq<char>, i: int) -> bool {
    &&& 0 <= i
    &&& i + 1 < s.len()
    &&& s[i] == '-'
    &&& is_version_start(s[i + 1])
}

/// The first qualifying hyphen at or after `i`, or the stem length when
/// none qualifies.
pub open spec fn first_split_from(s: Seq<char>, i: int) -> int
    decreases s.len() - i,
{
    if i < 0 || i >= s.len() {
        s.len() as int
    } else if is_split_at(s, i) {
        i
    } else {
        first_split_from(s, i + 1)
    }
}

/// The first qualifying hyphen of the stem, or its length when none
/// qualifies.
pub open spec fn first_split(s: Seq<char>) -> int {
    first_split_from(s, 0)
}

/// The search result lies between its start and the stem length.
pub proof fn lemma_first_split_from_bounds(s: Seq<char>, i: int)
    requires
        0 <= i <= s.len(),
    ensures
        i <= first_split_from(s, i) <= s.len(),
    decreases s.len() - i,
{
    if i < s.len() && !is_split_at(s, i) {
        lemma_first_split_from_bounds(s, i + 1);
    }
}

/// The split index never exceeds the stem length.
pub proof fn lemma_first_split_bounds(s: Seq<char>)
    ensures
        0 <= first_split(s) <= s.len(),
{
    lemma_first_split_from_bounds(s, 0);
}

/// With no qualifying hyphen before `i`, the search may as well start at
/// `i`.
pub proof fn lemma_first_split_skip(s: Seq<char>, i: int)
    requires
        0 <= i <= s.len(),
        forall|j: int| 0 <= j < i ==> !is_split_at(s, j),
    ensures
        first_split(s) == first_split_from(s, i),
    decreases i,
{
    if i > 0 {
        lemma_first_split_skip(s, i - 1);
    }
}

/// Split a filename into an inferred display name and version label: strip
/// a known package extension, then split at the first hyphen directly
/// followed by a digit or `v`; without such a hyphen the whole stem is the
/// name and the label is `Unknown`.
pub fn extract_base_name(filename: &str) -> (r: (String, String))
    ensures
        ({
            let t = strip_ext(filename@);
            let k = first_split(t);
            &&& (k == t.len() ==> r.0@ == t && r.1@ == "Unknown"@)
            &&& (k < t.len() ==> r.0@ == t.subrange(0, k) && r.1@ == t.subrange(
                k + 1,
                t.len() as int,
            ))
        }),
{
    let n = filename.unicode_len();
    let mut stem_end: usize = n;
    if n >= 4 {
        let c0 = filename.get_char(n - 4);
        let c1 = filename.get_char(n - 3);
        let c2 = filename.get_char(n - 2);
        let c3 = filename.get_char(n - 1);
        let is_jar = c0 == '.' && c1 == 'j' && c2 == 'a' && c3 == 'r';
        let is_zip = c0 == '.' && c1 == 'z' && c2 == 'i' && c3 == 'p';
        if is_jar || is_zip {
            stem_end = n - 4;
        }
        proof {
            let w = filename@.subrange(n - 4, n as int);
            assert(w[0] == filename@[n - 4]);
            assert(w[1] == filename@[n - 3]);
            assert(w[2] == filename@[n - 2]);
            assert(w[3] == filename@[n - 1]);
            if is_jar {
                assert(w =~= jar_ext());
            } else {
                assert(w != jar_ext()) by {
                    if w == jar_ext() {
                        assert(w[0] == '.' && w[1] == 'j' && w[2] == 'a' && w[3] == 'r');
                    }
                }
            }
            if is_zip {
                assert(w =~= zip_ext());
            } else {
                assert(w != zip_ext()) by {
                    if w == zip_ext() {
                        assert(w[0] == '.' && w[1] == 'z' && w[2] == 'i' && w[3] == 'p');
                    }
                }
            }
        }
    }
    proof {
        assert(strip_ext(filename@) =~= filename@.subrange(0, stem_end as int));
    }
    let stem = filename.substring_char(0, stem_end);
    let ghost t = strip_ext(filename@);
    let m = stem.unicode_len();
    let mut i: usize = 0;
    while i < m
        invariant
            m == stem@.len(),
            stem@ == t,
            t == strip_ext(filename@),
            0 <= i <= m,
            forall|j: int| 0 <= j < i ==> !is_split_at(t, j),
        decreases m - i,
    {
        let c = stem.get_char(i);
        if c == '-' && i + 1 < m {
            let c2 = stem.get_char(i + 1);
            let u = c2 as u32;
            if (48 <= u && u <= 57) || c2 == 'v' {
                proof {
                    assert(is_split_at(t, i as int));
                    lemma_first_split_skip(t, i as int);
                    assert(first_split(t) == i as int);
                }
                let name = stem.substring_char(0, i);
                let version = stem.substring_char(i + 1, m);
                return (name.to_owned(), version.to_owned());
            }
        }
        i += 1;
    }
    proof {
        lemma_first_split_skip(t, m as int);
    }
    (stem.to_owned(), String::from_str("Unknown"))
}

} // verus!
