//! The install/update/remove orchestrator: the only component that mutates
//! the manifest and the mods directory.
//!
//! Every operation is guarded by the per-item in-flight set: an item id with
//! an operation already in flight is rejected as busy, with nothing changed.
//! The guard is scoped: it is released on every exit path.  The caller
//! persists the settings after an operation reports success.

use vstd::prelude::*;

use crate::assoc::{
    kv_find, kv_remove, kv_wf, lemma_kv_find_first_some_iff, lemma_kv_remove_distinct_by,
    lemma_kv_remove_keys, lemma_kv_remove_props,
};
use crate::local_mods::{
    find_installed_filename, install_mod, install_transition, remove_mod, DirModel, ModsDir,
};
use crate::mod_store::{ModStore, StoreModel};
use crate::settings::{
    manifest_find_by_mod_id, ApiProvider, AppSettings, EntryModel, ManifestModel, SettingsModel,
};

verus! {

/// Why an operation failed, surfaced to the caller; nothing is retried
/// automatically.
#[derive(Debug)]
pub enum ModError {
    /// No game folder is configured, so there is no install root.
    Config,
    /// The item is not locally installed, or absent from the catalog.
    NotFound,
    /// The chosen version carries no download URL.
    NoDownloadUrl,
    /// A network or HTTP failure from a catalog or download collaborator.
    Transport(String),
    /// A malformed catalog response.
    Parse(String),
    /// A filesystem or persistence failure.
    Io(String),
    /// An operation for the same item id is already in flight.
    Busy,
    /// The item id does not fit the active provider's id shape.
    InvalidIdentifier,
}

impl ModError {
    /// A human-readable message for the error.
    pub fn message(&self) -> (r: String)
        ensures
            r@ == match self {
                ModError::Config => "No game folder set"@,
                ModError::NotFound => "Not found"@,
                ModError::NoDownloadUrl => "No download URL available"@,
                ModError::Transport(m) => m@,
                ModError::Parse(m) => m@,
                ModError::Io(m) => m@,
                ModError::Busy => "Operation already in progress"@,
                ModError::InvalidIdentifier => "Invalid item id for this provider"@,
            },
    {
        match self {
            ModError::Config => String::from_str("No game folder set"),
            ModError::NotFound => String::from_str("Not found"),
            ModError::NoDownloadUrl => String::from_str("No download URL available"),
            ModError::Transport(m) => m.clone(),
            ModError::Parse(m) => m.clone(),
            ModError::Io(m) => m.clone(),
            ModError::Busy => String::from_str("Operation already in progress"),
            ModError::InvalidIdentifier => String::from_str("Invalid item id for this provider"),
        }
    }
}

/// Everything an operation may touch: runtime store, directory contents and
/// settings.
#[verifier::ext_equal]
pub ghost struct OpState {
    pub store: StoreModel,
    pub dir: DirModel,
    pub settings: SettingsModel,
}

/// At most one manifest entry per catalog item id; the orchestrator
/// maintains this by clearing the prior entry before installing a
/// replacement.
pub open spec fn manifest_ids_unique(m: ManifestModel) -> bool {
    forall|i: int, j: int| 0 <= i < j < m.len() ==> m[i].1.mod_id != m[j].1.mod_id
}

/// What `install` does: reject a busy item or a missing install root with
/// nothing changed; otherwise clear any prior installation of the item,
/// write the new file, record the new entry, drop the stale cached status,
/// and succeed.
pub open spec fn install_spec(
    s: OpState,
    file_name: Seq<char>,
    data: Seq<u8>,
    e: EntryModel,
) -> (OpState, Result<(), ModError>) {
    if s.store.processing.contains(e.mod_id) {
        (s, Err(ModError::Busy))
    } else if s.settings.game_folder is None {
        (s, Err(ModError::Config))
    } else {
        let t = install_transition(s.settings.installed_mods, s.dir, file_name, data, e);
        (
            OpState {
                store: StoreModel {
                    status_cache: kv_remove(s.store.status_cache, e.mod_id),
                    ..s.store
                },
                dir: t.1,
                settings: SettingsModel { installed_mods: t.0, ..s.settings },
            },
            Ok(()),
        )
    }
}

/// What `update` does: as `install`, after first deleting the currently
/// recorded file and entry for the item; with no recorded filename it
/// degrades to a plain install.
pub open spec fn update_spec(
    s: OpState,
    file_name: Seq<char>,
    data: Seq<u8>,
    e: EntryModel,
) -> (OpState, Result<(), ModError>) {
    if s.store.processing.contains(e.mod_id) {
        (s, Err(ModError::Busy))
    } else if s.settings.game_folder is None {
        (s, Err(ModError::Config))
    } else {
        install_spec(update_spec_cleared(s, e.mod_id), file_name, data, e)
    }
}

/// What `remove` does: reject a busy item with nothing changed; fail with
/// `NotFound` when no manifest entry records the item; otherwise delete the
/// recorded file (a missing file is tolerated), drop the manifest entry and
/// the cached status, and succeed.
pub open spec fn remove_spec(s: OpState, mod_id: Seq<char>) -> (OpState, Result<(), ModError>) {
    if s.store.processing.contains(mod_id) {
        (s, Err(ModError::Busy))
    } else {
        match manifest_find_by_mod_id(s.settings.installed_mods, mod_id) {
            None => (s, Err(ModError::NotFound)),
            Some(p) => (
                OpState {
                    store: StoreModel {
                        status_cache: kv_remove(s.store.status_cache, mod_id),
                        ..s.store
                    },
                    dir: kv_remove(s.dir, p.0),
                    settings: SettingsModel {
                        installed_mods: kv_remove(s.settings.installed_mods, p.0),
                        ..s.settings
                    },
                },
                Ok(()),
            ),
        }
    }
}

/// The state an operation sees on entry.
pub open spec fn op_state(store: &ModStore, dir: &ModsDir, settings: &AppSettings) -> OpState {
    OpState { store: store@, dir: dir@, settings: settings@ }
}

/// Install one downloaded artifact under the in-flight guard.  The caller
/// has already fetched `data` from the version's download URL.
pub fn install(
    store: &mut ModStore,
    dir: &mut ModsDir,
    settings: &mut AppSettings,
    file_name: &String,
    data: &Vec<u8>,
    mod_id: String,
    mod_name: String,
    file_id: String,
    version_name: String,
    api_provider: ApiProvider,
) -> (r: Result<(), ModError>)
    requires
        old(store).wf(),
        old(dir).wf(),
        old(settings).wf(),
    ensures
        final(store).wf(),
        final(dir).wf(),
        final(settings).wf(),
        ({
            let (s2, res) = install_spec(
                op_state(old(store), old(dir), old(settings)),
                file_name@,
                data@,
                EntryModel {
                    mod_id: mod_id@,
                    mod_name: mod_name@,
                    file_id: file_id@,
                    version_name: version_name@,
                    api_provider,
                },
            );
            &&& final(store)@ == s2.store
            &&& final(dir)@ == s2.dir
            &&& final(settings)@ == s2.settings
            &&& r == res
        }),
{
    if store.is_processing(&mod_id) {
        return Err(ModError::Busy);
    }
    if settings.game_folder.is_none() {
        return Err(ModError::Config);
    }
    store.set_processing(&mod_id, true);
    install_mod(
        dir,
        file_name,
        data,
        mod_id.clone(),
        mod_name,
        file_id,
        version_name,
        api_provider,
        settings,
    );
    store.remove_mod(&mod_id);
    store.set_processing(&mod_id, false);
    proof {
        assert(store@.processing =~= old(store)@.processing);
        assert(store@ =~= (StoreModel {
            status_cache: kv_remove(old(store)@.status_cache, mod_id@),
            ..old(store)@
        }));
    }
    Ok(())
}

/// Update an item to a new downloaded version under the in-flight guard:
/// delete what the manifest records for it, then install the new artifact.
pub fn update(
    store: &mut ModStore,
    dir: &mut ModsDir,
    settings: &mut AppSettings,
    file_name: &String,
    data: &Vec<u8>,
    mod_id: String,
    mod_name: String,
    file_id: String,
    version_name: String,
    api_provider: ApiProvider,
) -> (r: Result<(), ModError>)
    requires
        old(store).wf(),
        old(dir).wf(),
        old(settings).wf(),
    ensures
        final(store).wf(),
        final(dir).wf(),
        final(settings).wf(),
        ({
            let (s2, res) = update_spec(
                op_state(old(store), old(dir), old(settings)),
                file_name@,
                data@,
                EntryModel {
                    mod_id: mod_id@,
                    mod_name: mod_name@,
                    file_id: file_id@,
                    version_name: version_name@,
                    api_provider,
                },
            );
            &&& final(store)@ == s2.store
            &&& final(dir)@ == s2.dir
            &&& final(settings)@ == s2.settings
            &&& r == res
        }),
{
    if store.is_processing(&mod_id) {
        return Err(ModError::Busy);
    }
    if settings.game_folder.is_none() {
        return Err(ModError::Config);
    }
    store.set_processing(&mod_id, true);
    let old_file = find_installed_filename(settings, &mod_id);
    if let Some(old_name) = old_file {
        remove_mod(dir, &old_name, settings);
    }
    install_mod(
        dir,
        file_name,
        data,
        mod_id.clone(),
        mod_name,
        file_id,
        version_name,
        api_provider,
        settings,
    );
    store.remove_mod(&mod_id);
    store.set_processing(&mod_id, false);
    proof {
        assert(store@.processing =~= old(store)@.processing);
        assert(store@ =~= (StoreModel {
            status_cache: kv_remove(old(store)@.status_cache, mod_id@),
            ..old(store)@
        }));
    }
    Ok(())
}

/// Remove an installed item under the in-flight guard.
pub fn remove(
    store: &mut ModStore,
    dir: &mut ModsDir,
    settings: &mut AppSettings,
    mod_id: &String,
) -> (r: Result<(), ModError>)
    requires
        old(store).wf(),
        old(dir).wf(),
        old(settings).wf(),
    ensures
        final(store).wf(),
        final(dir).wf(),
        final(settings).wf(),
        ({
            let (s2, res) = remove_spec(op_state(old(store), old(dir), old(settings)), mod_id@);
            &&& final(store)@ == s2.store
            &&& final(dir)@ == s2.dir
            &&& final(settings)@ == s2.settings
            &&& r == res
        }),
{
    if store.is_processing(mod_id) {
        return Err(ModError::Busy);
    }
    store.set_processing(mod_id, true);
    let old_file = find_installed_filename(settings, mod_id);
    let r = match old_file {
        None => Err(ModError::NotFound),
        Some(old_name) => {
            remove_mod(dir, &old_name, settings);
            store.remove_mod(mod_id);
            Ok(())
        },
    };
    store.set_processing(mod_id, false);
    proof {
        assert(store@.processing =~= old(store)@.processing);
        if r is Ok {
            assert(store@ =~= (StoreModel {
                status_cache: kv_remove(old(store)@.status_cache, mod_id@),
                ..old(store)@
            }));
        } else {
            assert(store@ =~= old(store)@);
            assert(dir@ =~= old(dir)@);
            assert(settings@ =~= old(settings)@);
        }
    }
    r
}

/// At-most-one-in-flight: while an operation for an item id is in flight,
/// a further install, update or remove for that id is rejected as busy and
/// changes neither the runtime store, the directory, nor the settings.
pub proof fn lemma_busy_rejected(
    s: OpState,
    file_name: Seq<char>,
    data: Seq<u8>,
    e: EntryModel,
)
    requires
        s.store.processing.contains(e.mod_id),
    ensures
        install_spec(s, file_name, data, e) == (s, Err::<(), ModError>(ModError::Busy)),
        update_spec(s, file_name, data, e) == (s, Err::<(), ModError>(ModError::Busy)),
        remove_spec(s, e.mod_id) == (s, Err::<(), ModError>(ModError::Busy)),
{
}

/// Removing twice in a row: with the item installed and idle, the first
/// `remove` succeeds and the second fails with `NotFound`, leaving the state
/// of the first removal untouched.
pub proof fn lemma_remove_idempotent(s: OpState, mod_id: Seq<char>)
    requires
        !s.store.processing.contains(mod_id),
        kv_wf(s.settings.installed_mods),
        manifest_ids_unique(s.settings.installed_mods),
        manifest_find_by_mod_id(s.settings.installed_mods, mod_id) is Some,
    ensures
        remove_spec(s, mod_id).1 == Ok::<(), ModError>(()),
        remove_spec(remove_spec(s, mod_id).0, mod_id).1 == Err::<(), ModError>(
            ModError::NotFound,
        ),
        remove_spec(remove_spec(s, mod_id).0, mod_id).0 == remove_spec(s, mod_id).0,
{
    let m = s.settings.installed_mods;
    let pred = |e2: EntryModel| e2.mod_id == mod_id;
    let p = manifest_find_by_mod_id(m, mod_id).unwrap();
    let m2 = kv_remove(m, p.0);
    lemma_kv_remove_props(m, p.0);
    lemma_kv_find_first_some_iff(m, pred);
    lemma_kv_find_first_some_iff(m2, pred);
    lemma_kv_find_first_is_elem(m, pred);
    if manifest_find_by_mod_id(m2, mod_id) is Some {
        let k = choose|k: int| 0 <= k < m2.len() && pred(m2[k].1);
        assert(m.contains(m2[k]));
        let k0 = choose|k0: int| 0 <= k0 < m.len() && m[k0] == m2[k];
        let kp = choose|kp: int| 0 <= kp < m.len() && m[kp] == p;
        assert(m2[k].0 != p.0) by {
            assert(kv_find(m2, m2[k].0) is Some) by {
                crate::assoc::lemma_kv_find_some_iff(m2, m2[k].0);
            }
        }
        assert(k0 != kp);
        assert(m[k0].1.mod_id == mod_id && m[kp].1.mod_id == mod_id);
    }
}

/// A first-match hit is an element of the store.
pub proof fn lemma_kv_find_first_is_elem<V>(m: Seq<(Seq<char>, V)>, pred: spec_fn(V) -> bool)
    ensures
        crate::assoc::kv_find_first(m, pred) matches Some(p) ==> m.contains(p) && pred(p.1),
    decreases m.len(),
{
    if m.len() > 0 {
        lemma_kv_find_first_is_elem(m.drop_first(), pred);
        if !pred(m[0].1) {
            if crate::assoc::kv_find_first(m, pred) is Some {
                let p = crate::assoc::kv_find_first(m, pred).unwrap();
                assert(m.drop_first().contains(p));
                let k = choose|k: int|
                    0 <= k < m.drop_first().len() && m.drop_first()[k] == p;
                assert(m[k + 1] == p);
            }
        } else {
            assert(m.contains(m[0])) by {
                assert(m[0] == m[0]);
            }
        }
    }
}


/// The install transition leaves at most one manifest entry per item id:
/// any prior entry for the item is cleared before the new one is recorded.
pub proof fn lemma_install_keeps_ids_unique(
    m: ManifestModel,
    d: crate::local_mods::DirModel,
    file_name: Seq<char>,
    data: Seq<u8>,
    e: EntryModel,
)
    requires
        kv_wf(m),
        manifest_ids_unique(m),
    ensures
        manifest_ids_unique(install_transition(m, d, file_name, data, e).0),
{
    let pred = |v: EntryModel| v.mod_id == e.mod_id;
    let g = |v: EntryModel| v.mod_id;
    let m1 = match manifest_find_by_mod_id(m, e.mod_id) {
        Some(p) => kv_remove(m, p.0),
        None => m,
    };
    let m2 = kv_remove(m1, file_name);
    match manifest_find_by_mod_id(m, e.mod_id) {
        Some(p) => {
            lemma_kv_remove_distinct_by(m, p.0, g);
        },
        None => {},
    }
    lemma_kv_remove_distinct_by(m1, file_name, g);
    lemma_kv_remove_props(m1, file_name);
    assert forall|k: int| 0 <= k < m2.len() implies (#[trigger] m2[k]).1.mod_id
        != e.mod_id by {
        assert(m1.contains(m2[k]));
        let k1 = choose|k1: int| 0 <= k1 < m1.len() && m1[k1] == m2[k];
        match manifest_find_by_mod_id(m, e.mod_id) {
            Some(p) => {
                lemma_kv_find_first_is_elem(m, pred);
                lemma_kv_remove_props(m, p.0);
                lemma_kv_remove_keys(m, p.0);
                assert(m.contains(m1[k1]));
                assert(m1[k1].0 != p.0);
                if m2[k].1.mod_id == e.mod_id {
                    let a = choose|a: int| 0 <= a < m.len() && m[a] == m1[k1];
                    let b = choose|b: int| 0 <= b < m.len() && m[b] == p;
                    assert(m[a] != m[b]);
                    assert(a != b);
                    assert(m[a].1.mod_id == e.mod_id && m[b].1.mod_id == e.mod_id);
                    if a < b {
                        assert(m[a].1.mod_id != m[b].1.mod_id);
                    } else {
                        assert(m[b].1.mod_id != m[a].1.mod_id);
                    }
                }
            },
            None => {
                lemma_kv_find_first_some_iff(m, pred);
                if m2[k].1.mod_id == e.mod_id {
                    assert(pred(m[k1].1));
                }
            },
        }
    }
    let r = m2.push((file_name, e));
    assert forall|i: int, j: int|
        0 <= i < j < r.len() implies (#[trigger] r[i]).1.mod_id != (
    #[trigger] r[j]).1.mod_id by {
        if j < m2.len() {
            assert(r[i] == m2[i] && r[j] == m2[j]);
            assert(g(m2[i].1) != g(m2[j].1));
        } else {
            assert(r[i] == m2[i] && r[j] == (file_name, e));
        }
    }
}

/// The orchestrator maintains the manifest invariant: after any of the
/// three operations, at most one entry records each catalog item id.
pub proof fn lemma_ops_keep_one_entry_per_item(
    s: OpState,
    file_name: Seq<char>,
    data: Seq<u8>,
    e: EntryModel,
)
    requires
        kv_wf(s.settings.installed_mods),
        manifest_ids_unique(s.settings.installed_mods),
    ensures
        manifest_ids_unique(install_spec(s, file_name, data, e).0.settings.installed_mods),
        manifest_ids_unique(update_spec(s, file_name, data, e).0.settings.installed_mods),
        manifest_ids_unique(remove_spec(s, e.mod_id).0.settings.installed_mods),
{
    let g = |v: EntryModel| v.mod_id;
    let m = s.settings.installed_mods;
    if !s.store.processing.contains(e.mod_id) && !(s.settings.game_folder is None) {
        lemma_install_keeps_ids_unique(m, s.dir, file_name, data, e);
        match manifest_find_by_mod_id(m, e.mod_id) {
            Some(p) => {
                lemma_kv_remove_props(m, p.0);
                lemma_kv_remove_distinct_by(m, p.0, g);
                let cleared = update_spec_cleared(s, e.mod_id);
                lemma_install_keeps_ids_unique(
                    cleared.settings.installed_mods,
                    cleared.dir,
                    file_name,
                    data,
                    e,
                );
            },
            None => {},
        }
    }
    if !s.store.processing.contains(e.mod_id) {
        match manifest_find_by_mod_id(m, e.mod_id) {
            Some(p) => {
                lemma_kv_remove_distinct_by(m, p.0, g);
            },
            None => {},
        }
    }
}

/// The state `update` clears before it installs.
pub open spec fn update_spec_cleared(s: OpState, mod_id: Seq<char>) -> OpState {
    match manifest_find_by_mod_id(s.settings.installed_mods, mod_id) {
        Some(p) => OpState {
            dir: kv_remove(s.dir, p.0),
            settings: SettingsModel {
                installed_mods: kv_remove(s.settings.installed_mods, p.0),
                ..s.settings
            },
            ..s
        },
        None => s,
    }
}

} // verus!
