//! The local scan: turning the install root's file list and the manifest
//! into presentable records, ordered case-insensitively by display name.

use vstd::prelude::*;

use crate::assoc::kv_find;
use crate::local_mods::{extract_base_name, first_split, jar_ext, strip_ext, zip_ext};
use crate::settings::{AppSettings, ManifestModel};
use crate::text::push_char;
use crate::ui_mod::{UiMod, UiModModel, UiModVersion, VersionModel};

verus! {

/// A letter folded for ordering: upper-case ASCII is compared as its
/// lower-case counterpart, every other character as its own code point.
pub open spec fn fold_char(c: char) -> nat {
    if 65 <= c as u32 && c as u32 <= 90 {
        (c as u32 + 32) as nat
    } else {
        c as u32 as nat
    }
}

/// Case-insensitive lexicographic order on names.
pub open spec fn lex_le(a: Seq<char>, b: Seq<char>) -> bool
    decreases a.len(),
{
    if a.len() == 0 {
        true
    } else if b.len() == 0 {
        false
    } else if fold_char(a[0]) < fold_char(b[0]) {
        true
    } else if fold_char(a[0]) > fold_char(b[0]) {
        false
    } else {
        lex_le(a.drop_first(), b.drop_first())
    }
}

/// Any two names are ordered one way or the other.
pub proof fn lemma_lex_le_total(a: Seq<char>, b: Seq<char>)
    ensures
        lex_le(a, b) || lex_le(b, a),
    decreases a.len(),
{
    if a.len() > 0 && b.len() > 0 && fold_char(a[0]) == fold_char(b[0]) {
        lemma_lex_le_total(a.drop_first(), b.drop_first());
    }
}

/// The order is transitive.
pub proof fn lemma_lex_le_trans(a: Seq<char>, b: Seq<char>, c: Seq<char>)
    requires
        lex_le(a, b),
        lex_le(b, c),
    ensures
        lex_le(a, c),
    decreases a.len(),
{
    if a.len() > 0 && b.len() > 0 && c.len() > 0 && fold_char(a[0]) == fold_char(b[0])
        && fold_char(b[0]) == fold_char(c[0]) {
        lemma_lex_le_trans(a.drop_first(), b.drop_first(), c.drop_first());
    }
}

/// Compare two names case-insensitively.
pub fn name_le(a: &str, b: &str) -> (r: bool)
    ensures
        r == lex_le(a@, b@),
{
    let n = a.unicode_len();
    let m = b.unicode_len();
    let mut i: usize = 0;
    proof {
        assert(a@.skip(0) =~= a@);
        assert(b@.skip(0) =~= b@);
    }
    loop
        invariant_except_break
            n == a@.len(),
            m == b@.len(),
            0 <= i <= n,
            0 <= i <= m,
            lex_le(a@, b@) == lex_le(a@.skip(i as int), b@.skip(i as int)),
        ensures
            lex_le(a@, b@) == lex_le(a@.skip(i as int), b@.skip(i as int)),
            i <= n && i <= m,
            i == n || i == m || fold_char(a@[i as int]) != fold_char(b@[i as int]),
        decreases n - i,
    {
        if i >= n || i >= m {
            break;
        }
        let ca = a.get_char(i);
        let cb = b.get_char(i);
        let fa: u32 = if 65 <= ca as u32 && ca as u32 <= 90 {
            ca as u32 + 32
        } else {
            ca as u32
        };
        let fb: u32 = if 65 <= cb as u32 && cb as u32 <= 90 {
            cb as u32 + 32
        } else {
            cb as u32
        };
        proof {
            assert(a@.skip(i as int)[0] == a@[i as int]);
            assert(b@.skip(i as int)[0] == b@[i as int]);
            assert(a@.skip(i as int).drop_first() =~= a@.skip(i as int + 1));
            assert(b@.skip(i as int).drop_first() =~= b@.skip(i as int + 1));
        }
        if fa != fb {
            break;
        }
        i += 1;
    }
    proof {
        assert(a@.skip(i as int).len() == n - i);
        assert(b@.skip(i as int).len() == m - i);
    }
    if i >= n {
        true
    } else if i >= m {
        false
    } else {
        let ca = a.get_char(i);
        let cb = b.get_char(i);
        let fa: u32 = if 65 <= ca as u32 && ca as u32 <= 90 {
            ca as u32 + 32
        } else {
            ca as u32
        };
        let fb: u32 = if 65 <= cb as u32 && cb as u32 <= 90 {
            cb as u32 + 32
        } else {
            cb as u32
        };
        proof {
            assert(a@.skip(i as int)[0] == a@[i as int]);
            assert(b@.skip(i as int)[0] == b@[i as int]);
        }
        fa < fb
    }
}

/// The views of a list of records.
pub open spec fn mod_views(s: Seq<UiMod>) -> Seq<UiModModel> {
    s.map_values(|u: UiMod| u@)
}

/// Sorted case-insensitively by display name.
pub open spec fn sorted_by_name(s: Seq<UiModModel>) -> bool {
    forall|i: int, j: int| 0 <= i < j < s.len() ==> lex_le(#[trigger] s[i].name, #[trigger] s[j].name)
}

/// Order the records case-insensitively by display name.  The same records
/// come out, as a multiset, ordered.
#[verifier::rlimit(60)]
pub fn sort_mods_by_name(v: Vec<UiMod>) -> (r: Vec<UiMod>)
    ensures
        sorted_by_name(mod_views(r@)),
        mod_views(r@).to_multiset() == mod_views(v@).to_multiset(),
{
    broadcast use vstd::seq_lib::group_to_multiset_ensures;
    broadcast use vstd::multiset::group_multiset_axioms;

    let ghost uview = |u: UiMod| u@;
    let ghost orig_vec = v@;
    let ghost orig = v@.map_values(uview);
    let mut v = v;
    let mut out: Vec<UiMod> = Vec::new();
    loop
        invariant_except_break
            uview == (|u: UiMod| u@),
            sorted_by_name(out@.map_values(uview)),
            out@.map_values(uview).to_multiset().add(v@.map_values(uview).to_multiset())
                =~= orig.to_multiset(),
        ensures
            uview == (|u: UiMod| u@),
            sorted_by_name(out@.map_values(uview)),
            out@.map_values(uview).to_multiset() =~= orig.to_multiset(),
        decreases v@.len(),
    {
        let ghost vv = v@;
        let x = match v.pop() {
            Some(x) => x,
            None => {
                proof {
                    vv.map_values(uview).to_multiset_ensures();
                    assert(vv.map_values(uview) =~= Seq::<UiModModel>::empty());
                    assert(vv.map_values(uview).to_multiset().len() == 0);
                    assert(out@.map_values(uview).to_multiset() =~= orig.to_multiset());
                }
                break;
            },
        };
        proof {
            v@.map_values(uview).to_multiset_ensures();
            assert(vv.map_values(uview).drop_last() =~= v@.map_values(uview));
            assert(vv.map_values(uview).last() == x@);
            assert(vv.map_values(uview) =~= v@.map_values(uview).push(x@));
            assert(vv.map_values(uview).to_multiset() =~= v@.map_values(
                uview,
            ).to_multiset().insert(x@));
        }
        let ghost before = out@;
        let n = out.len();
        let mut j: usize = 0;
        loop
            invariant_except_break
                n == out.len(),
                out@ == before,
                0 <= j <= n,
                uview == (|u: UiMod| u@),
                forall|k: int|
                    0 <= k < j ==> lex_le(
                        (#[trigger] out@.map_values(uview)[k]).name,
                        x@.name,
                    ),
            ensures
                0 <= j <= n,
                n == out.len(),
                out@ == before,
                uview == (|u: UiMod| u@),
                forall|k: int|
                    0 <= k < j ==> lex_le(
                        (#[trigger] out@.map_values(uview)[k]).name,
                        x@.name,
                    ),
                j < n ==> lex_le(x@.name, out@.map_values(uview)[j as int].name),
            decreases n - j,
        {
            if j >= n {
                break;
            }
            if name_le(x.name.as_str(), out[j].name.as_str()) {
                break;
            }
            proof {
                lemma_lex_le_total(x@.name, out@[j as int]@.name);
            }
            j += 1;
        }
        let ghost xm = x@;
        out.insert(j, x);
        proof {
            let bm = before.map_values(uview);
            let om = out@.map_values(uview);
            assert(om =~= bm.take(j as int).push(xm).add(bm.skip(j as int)));
            assert(bm =~= bm.take(j as int).add(bm.skip(j as int)));
            vstd::seq_lib::lemma_multiset_commutative(bm.take(j as int).push(xm), bm.skip(
                j as int,
            ));
            vstd::seq_lib::lemma_multiset_commutative(bm.take(j as int), bm.skip(j as int));
            bm.take(j as int).to_multiset_ensures();
            assert(bm.take(j as int).push(xm).to_multiset() =~= bm.take(
                j as int,
            ).to_multiset().insert(xm));
            assert(om.to_multiset() =~= bm.take(j as int).to_multiset().insert(xm).add(
                bm.skip(j as int).to_multiset(),
            ));
            assert(bm.to_multiset() =~= bm.take(j as int).to_multiset().add(
                bm.skip(j as int).to_multiset(),
            ));
            assert(om.to_multiset() =~= bm.to_multiset().insert(xm));
            assert forall|p: int, q: int| 0 <= p < q < om.len() implies lex_le(
                (#[trigger] om[p]).name,
                (#[trigger] om[q]).name,
            ) by {
                if q < j {
                    assert(om[p] == bm[p] && om[q] == bm[q]);
                } else if p < j && q == j {
                    assert(om[p] == bm[p] && om[q] == xm);
                } else if p < j && q > j {
                    assert(om[p] == bm[p] && om[q] == bm[q - 1]);
                } else if p == j {
                    assert(om[p] == xm && om[q] == bm[q - 1]);
                    if q - 1 == j {
                        assert(lex_le(xm.name, bm[j as int].name));
                    } else {
                        assert(lex_le(xm.name, bm[j as int].name));
                        assert(lex_le(bm[j as int].name, bm[q - 1].name));
                        lemma_lex_le_trans(xm.name, bm[j as int].name, bm[q - 1].name);
                    }
                } else {
                    assert(om[p] == bm[p - 1] && om[q] == bm[q - 1]);
                }
            }
            assert(sorted_by_name(om));
        }
    }
    proof {
        assert(mod_views(out@) =~= out@.map_values(uview));
        assert(mod_views(orig_vec) =~= orig);
    }
    out
}


/// Whether a filename carries a known mod-package extension.
pub open spec fn is_mod_package(name: Seq<char>) -> bool {
    name.len() >= 4 && (name.subrange(name.len() - 4, name.len() as int) == jar_ext()
        || name.subrange(name.len() - 4, name.len() as int) == zip_ext())
}

/// Hyphens presented as spaces in an inferred display name.
pub open spec fn dash_to_space(s: Seq<char>) -> Seq<char> {
    s.map_values(|c: char| if c == '-' {
        ' '
    } else {
        c
    })
}

/// The record shown for one file under the install root: a manifest entry
/// supplies id and display name; an unknown file gets the sentinel id and a
/// name and version inferred from the filename.
pub open spec fn local_record(filename: Seq<char>, m: ManifestModel) -> UiModModel {
    let stem = strip_ext(filename);
    let k = first_split(stem);
    let base_name = if k == stem.len() {
        stem
    } else {
        stem.subrange(0, k)
    };
    let local_version = if k == stem.len() {
        "Unknown"@
    } else {
        stem.subrange(k + 1, stem.len() as int)
    };
    let idname = match kv_find(m, filename) {
        Some(e) => (e.mod_id, e.mod_name),
        None => ("0"@, dash_to_space(base_name)),
    };
    UiModModel {
        id: idname.0,
        name: idname.1,
        summary: "Local file: "@ + filename,
        authors: "Local Install"@,
        download_count: 0,
        categories: Seq::empty(),
        icon: Seq::empty(),
        banner: Seq::empty(),
        gallery_urls: Seq::empty(),
        website_url: Seq::empty(),
        version: VersionModel {
            file_id: "0"@,
            display_name: local_version,
            file_name: filename,
            download_url: None,
            release_type: 1,
            game_versions: Seq::empty(),
            upload_date: "Local"@,
        },
    }
}

/// The records for a directory listing: one per package file, in listing
/// order.
pub open spec fn scan_records(files: Seq<Seq<char>>, m: ManifestModel) -> Seq<UiModModel>
    decreases files.len(),
{
    if files.len() == 0 {
        Seq::empty()
    } else if is_mod_package(files[0]) {
        seq![local_record(files[0], m)] + scan_records(files.drop_first(), m)
    } else {
        scan_records(files.drop_first(), m)
    }
}

/// Listing one more file appends its record, if it is a package.
pub proof fn lemma_scan_records_push(files: Seq<Seq<char>>, x: Seq<char>, m: ManifestModel)
    ensures
        scan_records(files.push(x), m) == if is_mod_package(x) {
            scan_records(files, m).push(local_record(x, m))
        } else {
            scan_records(files, m)
        },
    decreases files.len(),
{
    if files.len() == 0 {
        assert(files.push(x).drop_first() =~= files);
        assert(files.push(x)[0] == x);
        if is_mod_package(x) {
            assert(scan_records(files.push(x), m) =~= scan_records(files, m).push(
                local_record(x, m),
            ));
        }
    } else {
        lemma_scan_records_push(files.drop_first(), x, m);
        assert(files.push(x).drop_first() =~= files.drop_first().push(x));
        assert(files.push(x)[0] == files[0]);
        if is_mod_package(x) {
            assert(scan_records(files.push(x), m) =~= scan_records(files, m).push(
                local_record(x, m),
            ));
        }
    }
}

/// Whether `name` carries a known mod-package extension.
pub fn is_package_name(name: &str) -> (r: bool)
    ensures
        r == is_mod_package(name@),
{
    let n = name.unicode_len();
    if n < 4 {
        return false;
    }
    let c0 = name.get_char(n - 4);
    let c1 = name.get_char(n - 3);
    let c2 = name.get_char(n - 2);
    let c3 = name.get_char(n - 1);
    let is_jar = c0 == '.' && c1 == 'j' && c2 == 'a' && c3 == 'r';
    let is_zip = c0 == '.' && c1 == 'z' && c2 == 'i' && c3 == 'p';
    proof {
        let w = name@.subrange(n - 4, n as int);
        assert(w[0] == name@[n - 4]);
        assert(w[1] == name@[n - 3]);
        assert(w[2] == name@[n - 2]);
        assert(w[3] == name@[n - 1]);
        if is_jar {
            assert(w =~= jar_ext());
        } else {
            assert(w != jar_ext()) by {
                if w == jar_ext() {
                    assert(w[0] == '.' && w[1] == 'j' && w[2] == 'a' && w[3] == 'r');
                }
            }
        }
        if is_zip {
            assert(w =~= zip_ext());
        } else {
            assert(w != zip_ext()) by {
                if w == zip_ext() {
                    assert(w[0] == '.' && w[1] == 'z' && w[2] == 'i' && w[3] == 'p');
                }
            }
        }
    }
    is_jar || is_zip
}

/// The display name with hyphens as spaces.
pub fn replace_dashes(s: &str) -> (r: String)
    ensures
        r@ == dash_to_space(s@),
{
    let ghost f = |c: char| if c == '-' {
        ' '
    } else {
        c
    };
    let n = s.unicode_len();
    let mut r = String::new();
    let mut i: usize = 0;
    while i < n
        invariant
            n == s@.len(),
            0 <= i <= n,
            f == (|c: char| if c == '-' {
                ' '
            } else {
                c
            }),
            r@ == s@.take(i as int).map_values(f),
        decreases n - i,
    {
        let c = s.get_char(i);
        let out_c: char = if c == '-' {
            ' '
        } else {
            c
        };
        push_char(&mut r, out_c);
        proof {
            assert(r@ =~= s@.take(i + 1).map_values(f));
        }
        i += 1;
    }
    proof {
        assert(s@.take(n as int) =~= s@);
        assert(s@.map_values(f) =~= dash_to_space(s@));
    }
    r
}

/// The records for the files under the install root, ordered
/// case-insensitively by display name.  A filename the manifest knows keeps
/// its recorded id and name; an unknown file is presented under an inferred
/// name and version.
pub fn scan_local_mods(filenames: &Vec<String>, settings: &AppSettings) -> (r: Vec<UiMod>)
    ensures
        sorted_by_name(mod_views(r@)),
        mod_views(r@).to_multiset() == scan_records(
            filenames.deep_view(),
            settings@.installed_mods,
        ).to_multiset(),
{
    let ghost m = settings@.installed_mods;
    let ghost files = filenames.deep_view();
    let n = filenames.len();
    let mut list: Vec<UiMod> = Vec::new();
    let mut i: usize = 0;
    while i < n
        invariant
            n == filenames.len(),
            0 <= i <= n,
            m == settings@.installed_mods,
            files == filenames.deep_view(),
            mod_views(list@) == scan_records(files.take(i as int), m),
        decreases n - i,
    {
        let filename = &filenames[i];
        proof {
            assert(files[i as int] == filename@);
            lemma_scan_records_push(files.take(i as int), files[i as int], m);
            assert(files.take(i + 1) =~= files.take(i as int).push(files[i as int]));
        }
        if is_package_name(filename.as_str()) {
            let parts = extract_base_name(filename.as_str());
            let entry = settings.get_installed_mod(filename);
            let id: String;
            let display: String;
            match entry {
                Some(e) => {
                    id = e.mod_id.clone();
                    display = e.mod_name.clone();
                },
                None => {
                    id = String::from_str("0");
                    display = replace_dashes(parts.0.as_str());
                },
            }
            let mut summary = String::from_str("Local file: ");
            summary.append(filename.as_str());
            let version = UiModVersion {
                file_id: String::from_str("0"),
                display_name: parts.1,
                file_name: filename.clone(),
                download_url: None,
                release_type: 1,
                game_versions: Vec::new(),
                upload_date: String::from_str("Local"),
            };
            let record = UiMod {
                id,
                name: display,
                summary,
                authors: String::from_str("Local Install"),
                download_count: 0,
                categories: Vec::new(),
                icon: String::new(),
                banner: String::new(),
                gallery_urls: Vec::new(),
                website_url: String::new(),
                version,
            };
            let ghost prev = list@;
            proof {
                crate::local_mods::lemma_first_split_bounds(strip_ext(filename@));
                let ghost lr = local_record(files[i as int], m);
                assert(record@.version.file_id =~= lr.version.file_id);
                assert(record@.version.display_name =~= lr.version.display_name);
                assert(record@.version.file_name =~= lr.version.file_name);
                assert(record@.version.download_url == lr.version.download_url);
                assert(record@.version.release_type == lr.version.release_type);
                assert(record@.version.game_versions =~= lr.version.game_versions);
                assert(record@.version.upload_date =~= lr.version.upload_date);
                assert(record@.version =~= local_record(files[i as int], m).version);
                assert(record@.categories =~= Seq::<Seq<char>>::empty());
                assert(record@.gallery_urls =~= Seq::<Seq<char>>::empty());
                assert(record@ =~= local_record(files[i as int], m));
            }
            list.push(record);
            proof {
                assert(mod_views(list@) =~= mod_views(prev).push(
                    local_record(files[i as int], m),
                ));
                assert(mod_views(list@) =~= scan_records(files.take(i + 1), m));
            }
        } else {
            proof {
                assert(mod_views(list@) =~= scan_records(files.take(i + 1), m));
            }
        }
        i += 1;
    }
    proof {
        assert(files.take(n as int) =~= files);
    }
    sort_mods_by_name(list)
}


/// Whether the needle occurs at offset `off` of the haystack, comparing
/// folded characters.
pub open spec fn match_at(hay: Seq<char>, needle: Seq<char>, off: int) -> bool {
    forall|k: int|
        0 <= k < needle.len() ==> fold_char(hay[off + k]) == fold_char(#[trigger] needle[k])
}

/// Case-insensitive substring test; an empty needle always matches.
pub open spec fn contains_ci(hay: Seq<char>, needle: Seq<char>) -> bool {
    exists|off: int| 0 <= off && off + needle.len() <= hay.len() && match_at(hay, needle, off)
}

/// Whether a record matches a filter query: by display name or by filename,
/// case-insensitively.
pub open spec fn matches_query_model(u: UiModModel, q: Seq<char>) -> bool {
    contains_ci(u.name, q) || contains_ci(u.version.file_name, q)
}

/// Case-insensitive substring search.
pub fn contains_fold(hay: &str, needle: &str) -> (r: bool)
    ensures
        r == contains_ci(hay@, needle@),
{
    let h = hay.unicode_len();
    let n = needle.unicode_len();
    if n > h {
        proof {
            if contains_ci(hay@, needle@) {
                let off = choose|off: int|
                    0 <= off && off + needle@.len() <= hay@.len() && match_at(
                        hay@,
                        needle@,
                        off,
                    );
            }
        }
        return false;
    }
    let mut off: usize = 0;
    while off <= h - n
        invariant
            h == hay@.len(),
            n == needle@.len(),
            n <= h,
            0 <= off <= h - n + 1,
            forall|o: int| 0 <= o < off ==> !match_at(hay@, needle@, o),
        decreases h - n - off + 1,
    {
        let mut k: usize = 0;
        let mut matched: bool = true;
        while matched && k < n
            invariant
                h == hay@.len(),
                n == needle@.len(),
                off + n <= h,
                0 <= k <= n,
                matched ==> forall|j: int|
                    0 <= j < k ==> fold_char(hay@[off + j]) == fold_char(#[trigger] needle@[j]),
                !matched ==> !match_at(hay@, needle@, off as int),
            decreases n - k + if matched {
                1int
            } else {
                0int
            },
        {
            let ca = hay.get_char(off + k);
            let cb = needle.get_char(k);
            let fa: u32 = if 65 <= ca as u32 && ca as u32 <= 90 {
                ca as u32 + 32
            } else {
                ca as u32
            };
            let fb: u32 = if 65 <= cb as u32 && cb as u32 <= 90 {
                cb as u32 + 32
            } else {
                cb as u32
            };
            if fa != fb {
                proof {
                    assert(fold_char(hay@[off + k]) != fold_char(needle@[k as int]));
                }
                matched = false;
            } else {
                k += 1;
            }
        }
        if matched {
            proof {
                assert(match_at(hay@, needle@, off as int));
            }
            return true;
        }
        off += 1;
    }
    proof {
        if contains_ci(hay@, needle@) {
            let o = choose|o: int|
                0 <= o && o + needle@.len() <= hay@.len() && match_at(hay@, needle@, o);
        }
    }
    false
}

/// Whether a record matches the filter query.
pub fn matches_query(m: &UiMod, query: &str) -> (r: bool)
    ensures
        r == matches_query_model(m@, query@),
{
    contains_fold(m.name.as_str(), query) || contains_fold(
        m.version.file_name.as_str(),
        query,
    )
}

/// The records that match the filter query, in their given order.  An empty
/// query keeps everything.
pub fn filter_mods(mods: &Vec<UiMod>, query: &str) -> (r: Vec<UiMod>)
    ensures
        mod_views(r@) == mod_views(mods@).filter(
            |u: UiModModel| matches_query_model(u, query@),
        ),
{
    let ghost f = |u: UiModModel| matches_query_model(u, query@);
    let ghost vm = mod_views(mods@);
    let n = mods.len();
    let mut out: Vec<UiMod> = Vec::new();
    proof {
        reveal_with_fuel(vstd::seq::Seq::filter, 2);
        assert(vm.take(0) =~= Seq::<UiModModel>::empty());
        assert(mod_views(out@) =~= vm.take(0).filter(f));
    }
    let mut i: usize = 0;
    while i < n
        invariant
            n == mods.len(),
            0 <= i <= n,
            f == (|u: UiModModel| matches_query_model(u, query@)),
            vm == mod_views(mods@),
            mod_views(out@) == vm.take(i as int).filter(f),
        decreases n - i,
    {
        let keep = matches_query(&mods[i], query);
        proof {
            reveal_with_fuel(vstd::seq::Seq::filter, 2);
            vstd::seq::Seq::filter_distributes_over_add(
                vm.take(i as int),
                seq![vm[i as int]],
                f,
            );
            assert(vm.take(i + 1) =~= vm.take(i as int) + seq![vm[i as int]]);
            assert(seq![vm[i as int]].drop_last() =~= Seq::<UiModModel>::empty());
            assert(seq![vm[i as int]].last() == vm[i as int]);
            assert(Seq::<UiModModel>::empty().filter(f) =~= Seq::<UiModModel>::empty());
            if f(vm[i as int]) {
                assert(seq![vm[i as int]].filter(f) =~= seq![vm[i as int]]);
            } else {
                assert(seq![vm[i as int]].filter(f) =~= Seq::<UiModModel>::empty());
            }
            assert(vm[i as int] == mods@[i as int]@);
        }
        if keep {
            let ghost prev = out@;
            out.push(mods[i].clone());
            proof {
                assert(mod_views(out@) =~= mod_views(prev).push(vm[i as int]));
                assert(mod_views(out@) =~= vm.take(i + 1).filter(f));
            }
        } else {
            proof {
                assert(mod_views(out@) =~= vm.take(i + 1).filter(f));
            }
        }
        i += 1;
    }
    proof {
        assert(vm.take(n as int) =~= vm);
    }
    out
}

} // verus!
