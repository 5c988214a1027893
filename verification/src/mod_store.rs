//! Process-lifetime runtime state: the resolved-status cache and the
//! per-item in-flight set that serialises install, update and remove
//! operations.
//!
//! Nothing here is persisted.  The in-flight set is the entry guard: an item
//! id present in it refuses any further operation on that item until the
//! running one completes.

use vstd::prelude::*;

use crate::assoc::{
    kv_find, kv_has, kv_insert, kv_remove, kv_wf, lemma_kv_find_extends, lemma_kv_find_push,
    lemma_kv_insert_props, lemma_kv_remove_props, lemma_kv_remove_push,
};
use crate::local_mods::{check_install_status, resolve_model, InfoModel, InstallStatus,
    ModInstallInfo};
use crate::settings::{string_eq, AppSettings};

verus! {

/// The runtime status cache and in-flight tracker.
pub struct ModStore {
    pub status_cache: Vec<(String, ModInstallInfo)>,
    pub processing_ids: Vec<String>,
    pub refresh_trigger: u32,
}

/// Mathematical value of a [`ModStore`]: the cache as filename/report pairs
/// and the in-flight item ids as a set.
#[verifier::ext_equal]
pub ghost struct StoreModel {
    pub status_cache: Seq<(Seq<char>, InfoModel)>,
    pub processing: Set<Seq<char>>,
    pub refresh_trigger: u32,
}

impl View for ModStore {
    type V = StoreModel;

    open spec fn view(&self) -> StoreModel {
        StoreModel {
            status_cache: self.status_cache@.map_values(
                |p: (String, ModInstallInfo)| (p.0@, p.1@),
            ),
            processing: self.processing_ids.deep_view().to_set(),
            refresh_trigger: self.refresh_trigger,
        }
    }
}

/// The status last cached for an item, or `NotInstalled` when none is.
pub open spec fn cached_status(c: Seq<(Seq<char>, InfoModel)>, mod_id: Seq<char>) -> InstallStatus {
    match kv_find(c, mod_id) {
        Some(info) => info.install_status,
        None => InstallStatus::NotInstalled,
    }
}

impl ModStore {
    /// The store is valid when cache keys and in-flight ids are unique.
    pub open spec fn wf(&self) -> bool {
        &&& kv_wf(self@.status_cache)
        &&& forall|i: int, j: int|
            0 <= i < j < self.processing_ids.deep_view().len()
                ==> self.processing_ids.deep_view()[i] != self.processing_ids.deep_view()[j]
    }

    /// A fresh store: empty cache, nothing in flight.
    pub fn new() -> (r: Self)
        ensures
            r@ == (StoreModel {
                status_cache: Seq::empty(),
                processing: Set::empty(),
                refresh_trigger: 0,
            }),
            r.wf(),
    {
        let r = ModStore {
            status_cache: Vec::new(),
            processing_ids: Vec::new(),
            refresh_trigger: 0,
        };
        proof {
            assert(r@.status_cache =~= Seq::<(Seq<char>, InfoModel)>::empty());
            assert(r@.processing =~= Set::<Seq<char>>::empty());
            assert(r@ =~= (StoreModel {
                status_cache: Seq::empty(),
                processing: Set::empty(),
                refresh_trigger: 0,
            }));
        }
        r
    }

    /// The status last cached for `mod_id`, or `NotInstalled`.
    pub fn get_status(&self, mod_id: &String) -> (r: InstallStatus)
        ensures
            r == cached_status(self@.status_cache, mod_id@),
    {
        match self.find_cached(mod_id) {
            Some(info) => info.install_status,
            None => InstallStatus::NotInstalled,
        }
    }

    /// The cached report for `mod_id`, if any.
    fn find_cached(&self, mod_id: &String) -> (r: Option<&ModInstallInfo>)
        ensures
            match r {
                Some(info) => kv_find(self@.status_cache, mod_id@) == Some(info@),
                None => !kv_has(self@.status_cache, mod_id@),
            },
    {
        let n = self.status_cache.len();
        let mut i: usize = 0;
        while i < n
            invariant
                n == self.status_cache.len(),
                0 <= i <= n,
                kv_find(self@.status_cache.take(i as int), mod_id@) is None,
            decreases n - i,
        {
            let ghost prefix = self@.status_cache.take(i as int);
            proof {
                lemma_kv_find_push(prefix, self@.status_cache[i as int], mod_id@);
                assert(self@.status_cache.take(i + 1) =~= prefix.push(
                    self@.status_cache[i as int],
                ));
            }
            if string_eq(&self.status_cache[i].0, mod_id) {
                proof {
                    lemma_kv_find_extends(self@.status_cache, mod_id@, i as int + 1);
                }
                return Some(&self.status_cache[i].1);
            }
            i += 1;
        }
        proof {
            assert(self@.status_cache.take(n as int) =~= self@.status_cache);
        }
        None
    }

    /// The report for `mod_id`: the cached one if present, else freshly
    /// resolved against the manifest, caching any report of a locally known
    /// item.
    pub fn get_info(
        &mut self,
        mod_id: &String,
        latest_file_id: &String,
        settings: &AppSettings,
    ) -> (r: ModInstallInfo)
        requires
            old(self).wf(),
        ensures
            final(self).wf(),
            final(self)@.processing == old(self)@.processing,
            final(self)@.refresh_trigger == old(self)@.refresh_trigger,
            match kv_find(old(self)@.status_cache, mod_id@) {
                Some(info) => r@ == info && final(self)@.status_cache == old(
                    self,
                )@.status_cache,
                None => {
                    &&& r@ == resolve_model(settings@.installed_mods, mod_id@, latest_file_id@)
                    &&& final(self)@.status_cache == if r@.install_status
                        != InstallStatus::NotInstalled {
                        kv_insert(old(self)@.status_cache, mod_id@, r@)
                    } else {
                        old(self)@.status_cache
                    }
                },
            },
    {
        let cached = self.find_cached(mod_id);
        if let Some(info) = cached {
            return info.clone();
        }
        let info = check_install_status(settings, mod_id, latest_file_id);
        if !matches!(info.install_status, InstallStatus::NotInstalled) {
            self.set_info(mod_id, info.clone());
        }
        info
    }

    /// Cache `install_info` as the report for `mod_id`.
    pub fn set_info(&mut self, mod_id: &String, install_info: ModInstallInfo)
        requires
            old(self).wf(),
        ensures
            final(self).wf(),
            final(self)@.status_cache == kv_insert(
                old(self)@.status_cache,
                mod_id@,
                install_info@,
            ),
            final(self)@.processing == old(self)@.processing,
            final(self)@.refresh_trigger == old(self)@.refresh_trigger,
    {
        proof {
            lemma_kv_insert_props(old(self)@.status_cache, mod_id@, install_info@);
        }
        self.retain_cache_others(mod_id);
        let ghost removed = self.status_cache@;
        self.status_cache.push((mod_id.clone(), install_info));
        proof {
            assert(self@.status_cache =~= removed.map_values(
                |p: (String, ModInstallInfo)| (p.0@, p.1@),
            ).push((mod_id@, self.status_cache@[self.status_cache@.len() - 1].1@)));
        }
    }

    /// Drop the cached report for `mod_id`.
    pub fn remove_mod(&mut self, mod_id: &String)
        requires
            old(self).wf(),
        ensures
            final(self).wf(),
            final(self)@.status_cache == kv_remove(old(self)@.status_cache, mod_id@),
            final(self)@.processing == old(self)@.processing,
            final(self)@.refresh_trigger == old(self)@.refresh_trigger,
    {
        proof {
            lemma_kv_remove_props(old(self)@.status_cache, mod_id@);
        }
        self.retain_cache_others(mod_id);
    }

    /// Whether an operation on `mod_id` is in flight.
    pub fn is_processing(&self, mod_id: &String) -> (r: bool)
        ensures
            r == self@.processing.contains(mod_id@),
    {
        let n = self.processing_ids.len();
        let mut i: usize = 0;
        while i < n
            invariant
                n == self.processing_ids.len(),
                0 <= i <= n,
                forall|k: int| 0 <= k < i ==> self.processing_ids.deep_view()[k] != mod_id@,
            decreases n - i,
        {
            if string_eq(&self.processing_ids[i], mod_id) {
                assert(self.processing_ids.deep_view().contains(mod_id@)) by {
                    assert(self.processing_ids.deep_view()[i as int] == mod_id@);
                }
                return true;
            }
            i += 1;
        }
        proof {
            if self.processing_ids.deep_view().contains(mod_id@) {
                let k = choose|k: int|
                    0 <= k < self.processing_ids.deep_view().len()
                        && self.processing_ids.deep_view()[k] == mod_id@;
            }
        }
        false
    }

    /// Mark an operation on `mod_id` as started (`true`) or finished
    /// (`false`).
    pub fn set_processing(&mut self, mod_id: &String, is_loading: bool)
        requires
            old(self).wf(),
        ensures
            final(self).wf(),
            final(self)@.processing == if is_loading {
                old(self)@.processing.insert(mod_id@)
            } else {
                old(self)@.processing.remove(mod_id@)
            },
            final(self)@.status_cache == old(self)@.status_cache,
            final(self)@.refresh_trigger == old(self)@.refresh_trigger,
    {
        broadcast use vstd::seq_lib::lemma_seq_contains_after_push;

        if is_loading {
            if !self.is_processing(mod_id) {
                let ghost s = self.processing_ids.deep_view();
                self.processing_ids.push(mod_id.clone());
                proof {
                    assert(self.processing_ids.deep_view() =~= s.push(mod_id@));
                    assert(self@.processing =~= old(self)@.processing.insert(mod_id@));
                    assert(forall|i: int, j: int|
                        0 <= i < j < s.len() ==> s[i] != s[j]);
                    assert(forall|k: int| 0 <= k < s.len() ==> s[k] != mod_id@) by {
                        assert(forall|k: int|
                            0 <= k < s.len() ==> s.contains(s[k]));
                    }
                }
            } else {
                proof {
                    assert(self@.processing =~= old(self)@.processing.insert(mod_id@));
                }
            }
        } else {
            let ghost s = self.processing_ids.deep_view();
            let n = self.processing_ids.len();
            let mut i: usize = 0;
            let mut found: bool = false;
            while i < n && !found
                invariant
                    n == self.processing_ids.len(),
                    0 <= i <= n,
                    s == self.processing_ids.deep_view(),
                    self.processing_ids == old(self).processing_ids,
                    !found ==> forall|k: int| 0 <= k < i ==> s[k] != mod_id@,
                    found ==> i < n && s[i as int] == mod_id@,
                decreases n - i + if found {
                    0int
                } else {
                    1int
                },
            {
                if string_eq(&self.processing_ids[i], mod_id) {
                    found = true;
                } else {
                    i += 1;
                }
            }
            if found {
                self.processing_ids.remove(i);
                proof {
                    let t = self.processing_ids.deep_view();
                    assert(t =~= s.remove(i as int));
                    assert forall|x: Seq<char>|
                        t.contains(x) implies (s.contains(x) && x != mod_id@) by {
                        let k = choose|k: int| 0 <= k < t.len() && t[k] == x;
                        if k < i {
                            assert(s[k] == x);
                        } else {
                            assert(s[k + 1] == x);
                        }
                        if x == mod_id@ {
                            let k2: int = if k < i {
                                k
                            } else {
                                k + 1
                            };
                            assert(s[k2] == mod_id@ && s[i as int] == mod_id@ && k2 != i);
                        }
                    }
                    assert forall|x: Seq<char>|
                        s.contains(x) && x != mod_id@ implies t.contains(x) by {
                        let k = choose|k: int| 0 <= k < s.len() && s[k] == x;
                        if k < i {
                            assert(t[k] == x);
                        } else {
                            assert(k != i);
                            assert(t[k - 1] == x);
                        }
                    }
                    assert(self@.processing =~= old(self)@.processing.remove(mod_id@));
                    assert forall|a: int, b: int|
                        0 <= a < b < t.len() implies t[a] != t[b] by {
                        let a2: int = if a < i {
                            a
                        } else {
                            a + 1
                        };
                        let b2: int = if b < i {
                            b
                        } else {
                            b + 1
                        };
                        assert(t[a] == s[a2] && t[b] == s[b2]);
                    }
                }
            } else {
                proof {
                    if old(self)@.processing.contains(mod_id@) {
                        let k = choose|k: int| 0 <= k < s.len() && s[k] == mod_id@;
                    }
                    assert(self@.processing =~= old(self)@.processing.remove(mod_id@));
                }
            }
        }
    }

    /// Ask the interface to re-read local state.
    pub fn trigger_refresh(&mut self)
        requires
            old(self).refresh_trigger < u32::MAX,
        ensures
            final(self)@ == (StoreModel {
                refresh_trigger: (old(self)@.refresh_trigger + 1) as u32,
                ..old(self)@
            }),
            old(self).wf() ==> final(self).wf(),
    {
        self.refresh_trigger = self.refresh_trigger + 1;
        proof {
            assert(self@ =~= (StoreModel {
                refresh_trigger: (old(self)@.refresh_trigger + 1) as u32,
                ..old(self)@
            }));
        }
    }

    /// Keep only the cache pairs whose key differs from `mod_id`.
    fn retain_cache_others(&mut self, mod_id: &String)
        ensures
            final(self)@.status_cache == kv_remove(old(self)@.status_cache, mod_id@),
            final(self).processing_ids == old(self).processing_ids,
            final(self).refresh_trigger == old(self).refresh_trigger,
            final(self)@.processing == old(self)@.processing,
    {
        let n = self.status_cache.len();
        let mut kept: Vec<(String, ModInstallInfo)> = Vec::new();
        let mut i: usize = 0;
        while i < n
            invariant
                n == self.status_cache.len(),
                0 <= i <= n,
                self.status_cache == old(self).status_cache,
                self.processing_ids == old(self).processing_ids,
                self.refresh_trigger == old(self).refresh_trigger,
                kept@.map_values(|p: (String, ModInstallInfo)| (p.0@, p.1@)) == kv_remove(
                    self@.status_cache.take(i as int),
                    mod_id@,
                ),
            decreases n - i,
        {
            let ghost prefix = self@.status_cache.take(i as int);
            proof {
                lemma_kv_remove_push(prefix, self@.status_cache[i as int], mod_id@);
                assert(self@.status_cache.take(i + 1) =~= prefix.push(
                    self@.status_cache[i as int],
                ));
            }
            if !string_eq(&self.status_cache[i].0, mod_id) {
                let pair = (self.status_cache[i].0.clone(), self.status_cache[i].1.clone());
                kept.push(pair);
                proof {
                    assert(kept@.map_values(|p: (String, ModInstallInfo)| (p.0@, p.1@))
                        =~= kv_remove(self@.status_cache.take(i + 1), mod_id@));
                }
            } else {
                proof {
                    assert(kept@.map_values(|p: (String, ModInstallInfo)| (p.0@, p.1@))
                        =~= kv_remove(self@.status_cache.take(i + 1), mod_id@));
                }
            }
            i += 1;
        }
        proof {
            assert(self@.status_cache.take(n as int) =~= self@.status_cache);
        }
        self.status_cache = kept;
    }
}

} // verus!
