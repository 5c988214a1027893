//! Provider-neutral catalog records: the shape every provider's responses
//! are mapped into, and the mapping functions.

use vstd::prelude::*;

use crate::codec::dec_digits;
use crate::curse_forge::{ApiFile, Author, Category, CurseForgeMod, ModAsset, ModFile, Pagination};
use crate::local_mods::InstallStatus;
use crate::mod_tale::{ModTaleFile, ModTaleMod};
use crate::text::str_eq;

verus! {

/// One downloadable version of a catalog item, provider-neutral.
pub struct UiModVersion {
    pub file_id: String,
    pub display_name: String,
    pub file_name: String,
    pub download_url: Option<String>,
    pub release_type: u8,
    pub game_versions: Vec<String>,
    pub upload_date: String,
}

/// Mathematical value of a [`UiModVersion`].
#[verifier::ext_equal]
pub ghost struct VersionModel {
    pub file_id: Seq<char>,
    pub display_name: Seq<char>,
    pub file_name: Seq<char>,
    pub download_url: Option<Seq<char>>,
    pub release_type: u8,
    pub game_versions: Seq<Seq<char>>,
    pub upload_date: Seq<char>,
}

/// The view of an optional string.
pub open spec fn view_opt_string(o: Option<String>) -> Option<Seq<char>> {
    match o {
        Some(s) => Some(s@),
        None => None,
    }
}

impl View for UiModVersion {
    type V = VersionModel;

    open spec fn view(&self) -> VersionModel {
        VersionModel {
            file_id: self.file_id@,
            display_name: self.display_name@,
            file_name: self.file_name@,
            download_url: view_opt_string(self.download_url),
            release_type: self.release_type,
            game_versions: self.game_versions.deep_view(),
            upload_date: self.upload_date@,
        }
    }
}

/// A catalog item, provider-neutral, with its newest version.
pub struct UiMod {
    pub id: String,
    pub name: String,
    pub summary: String,
    pub authors: String,
    pub download_count: u64,
    pub categories: Vec<String>,
    pub icon: String,
    pub banner: String,
    pub gallery_urls: Vec<String>,
    pub website_url: String,
    pub version: UiModVersion,
}

/// Mathematical value of a [`UiMod`].
#[verifier::ext_equal]
pub ghost struct UiModModel {
    pub id: Seq<char>,
    pub name: Seq<char>,
    pub summary: Seq<char>,
    pub authors: Seq<char>,
    pub download_count: u64,
    pub categories: Seq<Seq<char>>,
    pub icon: Seq<char>,
    pub banner: Seq<char>,
    pub gallery_urls: Seq<Seq<char>>,
    pub website_url: Seq<char>,
    pub version: VersionModel,
}

impl View for UiMod {
    type V = UiModModel;

    open spec fn view(&self) -> UiModModel {
        UiModModel {
            id: self.id@,
            name: self.name@,
            summary: self.summary@,
            authors: self.authors@,
            download_count: self.download_count,
            categories: self.categories.deep_view(),
            icon: self.icon@,
            banner: self.banner@,
            gallery_urls: self.gallery_urls.deep_view(),
            website_url: self.website_url@,
            version: self.version@,
        }
    }
}

/// The stand-in version for an item that lists no files.
pub open spec fn dummy_version_model() -> VersionModel {
    VersionModel {
        file_id: Seq::empty(),
        display_name: "No files"@,
        file_name: Seq::empty(),
        download_url: None,
        release_type: 0,
        game_versions: Seq::empty(),
        upload_date: Seq::empty(),
    }
}

/// What a CurseForge embedded file maps to.
pub open spec fn version_of_cf_mod_file(f: ModFile) -> VersionModel {
    VersionModel {
        file_id: dec_digits(f.id as nat),
        display_name: f.display_name@,
        file_name: f.file_name@,
        download_url: view_opt_string(f.download_url),
        release_type: f.release_type as u8,
        game_versions: f.game_versions.deep_view(),
        upload_date: f.file_date@,
    }
}

/// What a CurseForge files-endpoint file maps to.
pub open spec fn version_of_cf_api_file(f: ApiFile) -> VersionModel {
    VersionModel {
        file_id: dec_digits(f.id as nat),
        display_name: f.display_name@,
        file_name: f.file_name@,
        download_url: view_opt_string(f.download_url),
        release_type: f.release_type,
        game_versions: f.game_versions.deep_view(),
        upload_date: f.file_date@,
    }
}

/// The release channel number for a ModTale channel tag.
pub open spec fn modtale_release_type(channel: Option<Seq<char>>) -> u8 {
    match channel {
        Some(c) => if c == "BETA"@ {
            2
        } else if c == "ALPHA"@ {
            3
        } else {
            1
        },
        None => 1,
    }
}

/// The index of the last `/` strictly before position `i`, or minus one.
pub open spec fn last_slash_before(s: Seq<char>, i: int) -> int
    decreases i,
{
    if i <= 0 {
        -1
    } else if s[i - 1] == '/' {
        i - 1
    } else {
        last_slash_before(s, i - 1)
    }
}

/// What follows the last `/` of `s`; the whole of `s` when it has none.
pub open spec fn last_segment(s: Seq<char>) -> Seq<char> {
    s.skip(last_slash_before(s, s.len() as int) + 1)
}

/// What a ModTale version maps to: the filename is taken from the download
/// URL's last segment, or synthesised from the version number.
pub open spec fn version_of_modtale_file(f: ModTaleFile) -> VersionModel {
    VersionModel {
        file_id: f.id@,
        display_name: f.version_number@,
        file_name: match f.download_url {
            Some(u) => last_segment(u@),
            None => f.version_number@ + ".jar"@,
        },
        download_url: view_opt_string(f.download_url),
        release_type: modtale_release_type(view_opt_string(f.channel)),
        game_versions: f.supported_versions.deep_view(),
        upload_date: f.created_at@,
    }
}

/// Clone a vector of strings by contents.
pub fn clone_string_vec(v: &Vec<String>) -> (r: Vec<String>)
    ensures
        r.deep_view() == v.deep_view(),
{
    let n = v.len();
    let mut r: Vec<String> = Vec::new();
    let mut i: usize = 0;
    while i < n
        invariant
            n == v.len(),
            0 <= i <= n,
            r.deep_view() == v.deep_view().take(i as int),
        decreases n - i,
    {
        let ghost prev = r.deep_view();
        r.push(v[i].clone());
        proof {
            let ghost rhs = v.deep_view().take(i + 1);
            assert(prev.len() == i);
            assert(r.deep_view().len() == i + 1);
            assert forall|k: int| 0 <= k < i + 1 implies #[trigger] r.deep_view()[k] == rhs[
                k
            ] by {
                assert(rhs[k] == v.deep_view()[k]);
                if k < i {
                    assert(r.deep_view()[k] == prev[k]);
                    assert(prev[k] == v.deep_view()[k]);
                } else {
                    assert(r.deep_view()[k] == v@[i as int]@);
                }
            }
            assert(r.deep_view() =~= rhs);
        }
        i += 1;
    }
    proof {
        assert(v.deep_view().take(n as int) =~= v.deep_view());
    }
    r
}

/// The characters after the last `/` of `s`.
pub fn after_last_slash(s: &str) -> (r: String)
    ensures
        r@ == last_segment(s@),
{
    let n = s.unicode_len();
    let mut j: usize = n;
    while j > 0
        invariant
            n == s@.len(),
            0 <= j <= n,
            last_slash_before(s@, n as int) == last_slash_before(s@, j as int),
        decreases j,
    {
        if s.get_char(j - 1) == '/' {
            let seg = s.substring_char(j, n);
            return seg.to_owned();
        }
        j = j - 1;
    }
    s.to_owned()
}

impl UiModVersion {
    /// Map a CurseForge embedded file.
    pub fn from_curseforge_mod_file(file: &ModFile) -> (r: Self)
        ensures
            r@ == version_of_cf_mod_file(*file),
    {
        let r = UiModVersion {
            file_id: crate::codec::u64_to_string(file.id as u64),
            display_name: file.display_name.clone(),
            file_name: file.file_name.clone(),
            download_url: crate::local_mods::clone_opt_string(&file.download_url),
            release_type: #[verifier::truncate] (file.release_type as u8),
            game_versions: clone_string_vec(&file.game_versions),
            upload_date: file.file_date.clone(),
        };
        proof {
            assert(r@ =~= version_of_cf_mod_file(*file));
        }
        r
    }

    /// Map a CurseForge files-endpoint file.
    pub fn from_curseforge_api_file(file: &ApiFile) -> (r: Self)
        ensures
            r@ == version_of_cf_api_file(*file),
    {
        let r = UiModVersion {
            file_id: crate::codec::u64_to_string(file.id as u64),
            display_name: file.display_name.clone(),
            file_name: file.file_name.clone(),
            download_url: crate::local_mods::clone_opt_string(&file.download_url),
            release_type: file.release_type,
            game_versions: clone_string_vec(&file.game_versions),
            upload_date: file.file_date.clone(),
        };
        proof {
            assert(r@ =~= version_of_cf_api_file(*file));
        }
        r
    }

    /// Map a ModTale version.
    pub fn from_modtale_file(file: &ModTaleFile) -> (r: Self)
        ensures
            r@ == version_of_modtale_file(*file),
    {
        let release_type: u8 = match &file.channel {
            Some(c) => {
                if str_eq(c.as_str(), "BETA") {
                    2
                } else if str_eq(c.as_str(), "ALPHA") {
                    3
                } else {
                    1
                }
            },
            None => 1,
        };
        let file_name: String = match &file.download_url {
            Some(url) => after_last_slash(url.as_str()),
            None => {
                let mut fname = file.version_number.clone();
                fname.append(".jar");
                fname
            },
        };
        let r = UiModVersion {
            file_id: file.id.clone(),
            display_name: file.version_number.clone(),
            file_name,
            download_url: crate::local_mods::clone_opt_string(&file.download_url),
            release_type,
            game_versions: clone_string_vec(&file.supported_versions),
            upload_date: file.created_at.clone(),
        };
        proof {
            assert(r@ =~= version_of_modtale_file(*file));
        }
        r
    }
}

/// The stand-in version for an item that lists no files.
#[allow(non_snake_case)]
pub fn UiModVersion_dummy() -> (r: UiModVersion)
    ensures
        r@ == dummy_version_model(),
{
    let r = UiModVersion {
        file_id: String::new(),
        display_name: String::from_str("No files"),
        file_name: String::new(),
        download_url: None,
        release_type: 0,
        game_versions: Vec::new(),
        upload_date: String::new(),
    };
    proof {
        assert(r@.game_versions =~= Seq::<Seq<char>>::empty());
        assert(r@ =~= dummy_version_model());
    }
    r
}


/// Author names joined with a comma and a space.
pub open spec fn join_authors(names: Seq<Seq<char>>) -> Seq<char>
    decreases names.len(),
{
    if names.len() == 0 {
        Seq::empty()
    } else if names.len() == 1 {
        names[0]
    } else {
        join_authors(names.drop_last()) + ", "@ + names.last()
    }
}

/// At most three thumbnail links, skipping the first screenshot, which
/// serves as the banner.
pub open spec fn gallery_of(shots: Seq<ModAsset>) -> Seq<Seq<char>> {
    if shots.len() <= 1 {
        Seq::empty()
    } else {
        let rest = shots.drop_first();
        let k: int = if rest.len() > 3 {
            3
        } else {
            rest.len() as int
        };
        rest.take(k).map_values(|a: ModAsset| a.thumbnail_url@)
    }
}

/// What a CurseForge catalog item maps to.
pub open spec fn uimod_of_cf(m: CurseForgeMod) -> UiModModel {
    let icon = match m.logo {
        Some(l) => l.thumbnail_url@,
        None => Seq::empty(),
    };
    UiModModel {
        id: dec_digits(m.id as nat),
        name: m.name@,
        summary: m.summary@,
        authors: join_authors(m.authors@.map_values(|a: Author| a.name@)),
        download_count: m.download_count,
        categories: m.categories@.map_values(|c: Category| c.name@),
        icon: icon,
        banner: if m.screenshots@.len() > 0 {
            m.screenshots@[0].url@
        } else {
            icon
        },
        gallery_urls: gallery_of(m.screenshots@),
        website_url: m.links.website_url@,
        version: if m.latest_files@.len() > 0 {
            version_of_cf_mod_file(m.latest_files@[0])
        } else {
            dummy_version_model()
        },
    }
}

/// What a ModTale catalog item maps to.
pub open spec fn uimod_of_modtale(m: ModTaleMod) -> UiModModel {
    let icon = match m.icon_url {
        Some(u) => u@,
        None => Seq::empty(),
    };
    let slug = match m.slug {
        Some(s) => s@,
        None => m.id@,
    };
    UiModModel {
        id: m.id@,
        name: m.name@,
        summary: match m.summary {
            Some(s) => s@,
            None => Seq::empty(),
        },
        authors: m.author@,
        download_count: m.download_count,
        categories: match m.categories {
            Some(c) => c.deep_view(),
            None => Seq::empty(),
        },
        icon: icon,
        banner: match m.banner_url {
            Some(b) => b@,
            None => icon,
        },
        gallery_urls: Seq::empty(),
        website_url: "https://modtale.net/project/"@ + slug,
        version: match m.versions {
            Some(vs) => if vs@.len() > 0 {
                version_of_modtale_file(vs@[0])
            } else {
                dummy_version_model()
            },
            None => dummy_version_model(),
        },
    }
}

/// The authors of a catalog item as one comma-separated string.
pub fn join_author_names(authors: &Vec<Author>) -> (r: String)
    ensures
        r@ == join_authors(authors@.map_values(|a: Author| a.name@)),
{
    let ghost f = |a: Author| a.name@;
    let ghost names = authors@.map_values(f);
    let mut out = String::new();
    let n = authors.len();
    let mut i: usize = 0;
    while i < n
        invariant
            n == authors.len(),
            0 <= i <= n,
            f == (|a: Author| a.name@),
            names == authors@.map_values(f),
            out@ == join_authors(names.take(i as int)),
        decreases n - i,
    {
        if i > 0 {
            out.append(", ");
        }
        out.append(authors[i].name.as_str());
        proof {
            assert(names.take(i + 1).drop_last() =~= names.take(i as int));
            assert(names.take(i + 1).last() == names[i as int]);
            assert(names[i as int] == authors@[i as int].name@);
            if i == 0 {
                assert(out@ =~= join_authors(names.take(1)));
            } else {
                assert(out@ =~= join_authors(names.take(i as int)) + ", "@ + names[i as int]);
            }
        }
        i += 1;
    }
    proof {
        assert(names.take(n as int) =~= names);
        assert(names =~= authors@.map_values(|a: Author| a.name@));
    }
    out
}

/// The category names of a CurseForge item.
pub fn category_names(cats: &Vec<Category>) -> (r: Vec<String>)
    ensures
        r.deep_view() == cats@.map_values(|c: Category| c.name@),
{
    let ghost f = |c: Category| c.name@;
    let n = cats.len();
    let mut r: Vec<String> = Vec::new();
    let mut i: usize = 0;
    while i < n
        invariant
            n == cats.len(),
            0 <= i <= n,
            f == (|c: Category| c.name@),
            r.deep_view() == cats@.take(i as int).map_values(f),
        decreases n - i,
    {
        let ghost prev = r.deep_view();
        r.push(cats[i].name.clone());
        proof {
            let ghost rhs = cats@.take(i + 1).map_values(f);
            assert(prev.len() == i);
            assert(r.deep_view().len() == i + 1);
            assert forall|k: int| 0 <= k < i + 1 implies #[trigger] r.deep_view()[k] == rhs[
                k
            ] by {
                assert(rhs[k] == cats@[k].name@);
                if k < i {
                    assert(r.deep_view()[k] == prev[k]);
                    assert(prev[k] == cats@.take(i as int).map_values(f)[k]);
                } else {
                    assert(r.deep_view()[k] == cats@[i as int].name@);
                }
            }
            assert(r.deep_view() =~= rhs);
        }
        i += 1;
    }
    proof {
        assert(cats@.take(n as int) =~= cats@);
        assert(cats@.map_values(f) =~= cats@.map_values(|c: Category| c.name@));
    }
    r
}

/// The gallery thumbnails of a CurseForge item.
pub fn gallery_urls_of(shots: &Vec<ModAsset>) -> (r: Vec<String>)
    ensures
        r.deep_view() == gallery_of(shots@),
{
    let n = shots.len();
    let mut r: Vec<String> = Vec::new();
    if n <= 1 {
        proof {
            assert(r.deep_view() =~= gallery_of(shots@));
        }
        return r;
    }
    let count: usize = if n - 1 > 3 {
        3
    } else {
        n - 1
    };
    let mut k: usize = 0;
    while k < count
        invariant
            n == shots.len(),
            n > 1,
            count == if n - 1 > 3 {
                3int
            } else {
                n - 1
            },
            0 <= k <= count,
            r.deep_view().len() == k,
            forall|j: int|
                0 <= j < k ==> #[trigger] r.deep_view()[j] == shots@[j + 1].thumbnail_url@,
        decreases count - k,
    {
        let ghost prev = r.deep_view();
        r.push(shots[k + 1].thumbnail_url.clone());
        proof {
            assert(forall|j: int| 0 <= j < k ==> #[trigger] r.deep_view()[j] == prev[j]);
            assert(r.deep_view()[k as int] == shots@[k as int + 1].thumbnail_url@);
        }
        k += 1;
    }
    proof {
        let g = gallery_of(shots@);
        assert(g.len() == count);
        assert(forall|j: int|
            0 <= j < count ==> #[trigger] g[j] == shots@[j + 1].thumbnail_url@);
        assert(r.deep_view() =~= g);
    }
    r
}

impl UiMod {
    /// Map a CurseForge catalog item.
    pub fn from_curseforge_api(api_mod: &CurseForgeMod) -> (r: Self)
        ensures
            r@ == uimod_of_cf(*api_mod),
    {
        let authors = join_author_names(&api_mod.authors);
        let categories = category_names(&api_mod.categories);
        let icon = match &api_mod.logo {
            Some(l) => l.thumbnail_url.clone(),
            None => String::new(),
        };
        let banner = if api_mod.screenshots.len() > 0 {
            api_mod.screenshots[0].url.clone()
        } else {
            icon.clone()
        };
        let gallery_urls = gallery_urls_of(&api_mod.screenshots);
        let version = if api_mod.latest_files.len() > 0 {
            UiModVersion::from_curseforge_mod_file(&api_mod.latest_files[0])
        } else {
            UiModVersion_dummy()
        };
        let r = UiMod {
            id: crate::codec::u64_to_string(api_mod.id as u64),
            name: api_mod.name.clone(),
            summary: api_mod.summary.clone(),
            authors,
            download_count: api_mod.download_count,
            categories,
            icon,
            banner,
            gallery_urls,
            website_url: api_mod.links.website_url.clone(),
            version,
        };
        proof {
            assert(r@ =~= uimod_of_cf(*api_mod));
        }
        r
    }

    /// Map a ModTale catalog item.
    pub fn from_modtale_api(modtale_mod: &ModTaleMod) -> (r: Self)
        ensures
            r@ == uimod_of_modtale(*modtale_mod),
    {
        let icon = match &modtale_mod.icon_url {
            Some(u) => u.clone(),
            None => String::new(),
        };
        let banner = match &modtale_mod.banner_url {
            Some(b) => b.clone(),
            None => icon.clone(),
        };
        let version = match &modtale_mod.versions {
            Some(vs) => {
                if vs.len() > 0 {
                    UiModVersion::from_modtale_file(&vs[0])
                } else {
                    UiModVersion_dummy()
                }
            },
            None => UiModVersion_dummy(),
        };
        let slug = match &modtale_mod.slug {
            Some(s) => s.clone(),
            None => modtale_mod.id.clone(),
        };
        let mut website_url = String::from_str("https://modtale.net/project/");
        website_url.append(slug.as_str());
        let summary = match &modtale_mod.summary {
            Some(s) => s.clone(),
            None => String::new(),
        };
        let categories: Vec<String> = match &modtale_mod.categories {
            Some(c) => clone_string_vec(c),
            None => Vec::new(),
        };
        proof {
            if modtale_mod.categories is None {
                assert(categories.deep_view() =~= Seq::<Seq<char>>::empty());
            }
        }
        let r = UiMod {
            id: modtale_mod.id.clone(),
            name: modtale_mod.name.clone(),
            summary,
            authors: modtale_mod.author.clone(),
            download_count: modtale_mod.download_count,
            categories,
            icon,
            banner,
            gallery_urls: Vec::new(),
            website_url,
            version,
        };
        proof {
            assert(r@.gallery_urls =~= Seq::<Seq<char>>::empty());
            assert(r@ =~= uimod_of_modtale(*modtale_mod));
        }
        r
    }
}


/// The number of result pages a CurseForge search response spans: the total
/// count divided by the page size, rounded up; zero for a zero page size.
pub fn curseforge_total_pages(p: &Pagination) -> (r: u32)
    ensures
        r as nat == if p.page_size == 0 {
            0nat
        } else {
            ((p.total_count + p.page_size - 1) as nat) / (p.page_size as nat)
        },
{
    if p.page_size == 0 {
        return 0;
    }
    let t = p.total_count as u64;
    let s = p.page_size as u64;
    let q = (t + s - 1) / s;
    proof {
        assert(t * 1 <= t * s) by (nonlinear_arith)
            requires
                s >= 1,
                t >= 0,
        ;
        assert((t * s + (s - 1)) as int / s as int == t as int) by {
            vstd::arithmetic::div_mod::lemma_fundamental_div_mod_converse(
                (t * s + (s - 1)) as int,
                s as int,
                t as int,
                (s - 1) as int,
            );
        }
        assert((t + s - 1) as int / s as int <= (t * s + (s - 1)) as int / s as int) by {
            vstd::arithmetic::div_mod::lemma_div_is_ordered(
                (t + s - 1) as int,
                (t * s + (s - 1)) as int,
                s as int,
            );
        }
        assert(q <= t);
    }
    q as u32
}

/// The ModTale sort keyword for a sort selector.
pub fn modtale_sort_label(sort: u32) -> (r: String)
    ensures
        r@ == if sort == 1 {
            "relevance"@
        } else if sort == 3 {
            "updated"@
        } else {
            "downloads"@
        },
{
    if sort == 1 {
        String::from_str("relevance")
    } else if sort == 3 {
        String::from_str("updated")
    } else {
        String::from_str("downloads")
    }
}

/// The CurseForge sort-field number for a sort selector.
pub fn curseforge_sort_field(sort: u32) -> (r: u32)
    requires
        sort < 0xffff_ffffu32,
    ensures
        r == sort + 1,
{
    sort + 1
}

/// Whether every character of `s` is a decimal digit.
pub open spec fn all_digits(s: Seq<char>) -> bool {
    forall|i: int| 0 <= i < s.len() ==> crate::codec::is_digit(#[trigger] s[i])
}

/// The number the digits of `s` denote.
pub open spec fn digits_value(s: Seq<char>) -> nat
    decreases s.len(),
{
    if s.len() == 0 {
        0
    } else {
        digits_value(s.drop_last()) * 10 + crate::codec::char_val(s.last())
    }
}

/// Longer digit strings denote no smaller numbers.
pub proof fn lemma_digits_value_take_mono(s: Seq<char>, i: int)
    requires
        0 <= i <= s.len(),
    ensures
        digits_value(s) >= digits_value(s.take(i)),
    decreases s.len() - i,
{
    if i < s.len() {
        lemma_digits_value_take_mono(s, i + 1);
        assert(s.take(i + 1).drop_last() =~= s.take(i));
        assert(digits_value(s.take(i + 1)) >= digits_value(s.take(i)));
    } else {
        assert(s.take(i) =~= s);
    }
}

/// Check an item id against the CurseForge id shape: a non-empty string of
/// decimal digits denoting a number that fits in 32 bits.  Anything else is
/// an invalid identifier.
pub fn parse_curseforge_id(mod_id: &str) -> (r: Result<u32, crate::orchestrator::ModError>)
    ensures
        match r {
            Ok(v) => {
                &&& mod_id@.len() > 0
                &&& all_digits(mod_id@)
                &&& digits_value(mod_id@) <= 0xffff_ffffnat
                &&& v as nat == digits_value(mod_id@)
            },
            Err(e) => {
                &&& e matches crate::orchestrator::ModError::InvalidIdentifier
                &&& !(mod_id@.len() > 0 && all_digits(mod_id@) && digits_value(mod_id@)
                    <= 0xffff_ffffnat)
            },
        },
{
    let n = mod_id.unicode_len();
    if n == 0 {
        return Err(crate::orchestrator::ModError::InvalidIdentifier);
    }
    let mut acc: u64 = 0;
    let mut i: usize = 0;
    while i < n
        invariant
            n == mod_id@.len(),
            0 <= i <= n,
            acc <= 0xffff_ffffu64,
            acc as nat == digits_value(mod_id@.take(i as int)),
            forall|k: int| 0 <= k < i ==> crate::codec::is_digit(#[trigger] mod_id@[k]),
        decreases n - i,
    {
        let c = mod_id.get_char(i);
        let u = c as u32;
        if !(48 <= u && u <= 57) {
            return Err(crate::orchestrator::ModError::InvalidIdentifier);
        }
        let d = (u - 48) as u64;
        let next = acc * 10 + d;
        proof {
            assert(mod_id@.take(i + 1).drop_last() =~= mod_id@.take(i as int));
            assert(mod_id@.take(i + 1).last() == mod_id@[i as int]);
        }
        if next > 0xffff_ffffu64 {
            proof {
                lemma_digits_value_take_mono(mod_id@, i as int + 1);
            }
            return Err(crate::orchestrator::ModError::InvalidIdentifier);
        }
        acc = next;
        i += 1;
    }
    proof {
        assert(mod_id@.take(n as int) =~= mod_id@);
    }
    Ok(acc as u32)
}

/// Where a chosen version downloads from: its filename and URL, or the
/// error for a version that carries no URL.
pub fn resolve_download(version: &UiModVersion) -> (r: Result<
    (String, String),
    crate::orchestrator::ModError,
>)
    ensures
        match r {
            Ok(p) => {
                &&& version@.download_url == Some(p.1@)
                &&& p.0@ == version@.file_name
            },
            Err(e) => {
                &&& e matches crate::orchestrator::ModError::NoDownloadUrl
                &&& version@.download_url is None
            },
        },
{
    match &version.download_url {
        Some(url) => Ok((version.file_name.clone(), url.clone())),
        None => Err(crate::orchestrator::ModError::NoDownloadUrl),
    }
}

/// What an action button should do.
#[derive(Clone, Copy, Debug, PartialEq, Eq, Structural)]
pub enum ButtonAction {
    NoAction,
    Install,
    Update,
    Remove,
}

/// How an action button presents itself.
pub struct ButtonState {
    pub text: String,
    pub class: String,
    pub disabled: bool,
    pub action: ButtonAction,
}

/// Mathematical value of a [`ButtonState`].
#[verifier::ext_equal]
pub ghost struct ButtonStateModel {
    pub text: Seq<char>,
    pub class: Seq<char>,
    pub disabled: bool,
    pub action: ButtonAction,
}

impl View for ButtonState {
    type V = ButtonStateModel;

    open spec fn view(&self) -> ButtonStateModel {
        ButtonStateModel {
            text: self.text@,
            class: self.class@,
            disabled: self.disabled,
            action: self.action,
        }
    }
}

/// The action that moves an item out of its current status.
pub open spec fn target_action(status: InstallStatus) -> ButtonAction {
    match status {
        InstallStatus::Installed => ButtonAction::Remove,
        InstallStatus::NotInstalled => ButtonAction::Install,
        InstallStatus::Outdated => ButtonAction::Update,
    }
}

/// What the action button shows: a disabled working state while the item is
/// in flight, a retry offering the same action after an error, else the
/// action that fits the resolved status.
pub open spec fn button_state_model(
    status: InstallStatus,
    is_processing: bool,
    has_error: bool,
) -> ButtonStateModel {
    if is_processing {
        ButtonStateModel {
            text: "WORKING..."@,
            class: "btn-secondary"@,
            disabled: true,
            action: ButtonAction::NoAction,
        }
    } else if has_error {
        ButtonStateModel {
            text: "RETRY"@,
            class: "btn-danger"@,
            disabled: false,
            action: target_action(status),
        }
    } else {
        let a = target_action(status);
        ButtonStateModel {
            text: match a {
                ButtonAction::Remove => "REMOVE"@,
                ButtonAction::Install => "INSTALL"@,
                ButtonAction::Update => "UPDATE"@,
                ButtonAction::NoAction => "UNKNOWN"@,
            },
            class: match a {
                ButtonAction::Remove => "btn-danger"@,
                ButtonAction::Install => "btn-brand"@,
                ButtonAction::Update => "btn-warning"@,
                ButtonAction::NoAction => "btn-secondary"@,
            },
            disabled: false,
            action: a,
        }
    }
}

/// The button for one item, from its resolved status, its in-flight flag
/// and whether its last operation failed.
pub fn button_state_for(status: InstallStatus, is_processing: bool, has_error: bool) -> (r:
    ButtonState)
    ensures
        r@ == button_state_model(status, is_processing, has_error),
{
    if is_processing {
        let r = ButtonState {
            text: String::from_str("WORKING..."),
            class: String::from_str("btn-secondary"),
            disabled: true,
            action: ButtonAction::NoAction,
        };
        proof {
            assert(r@ =~= button_state_model(status, is_processing, has_error));
        }
        r
    } else {
        let action = match status {
            InstallStatus::Installed => ButtonAction::Remove,
            InstallStatus::NotInstalled => ButtonAction::Install,
            InstallStatus::Outdated => ButtonAction::Update,
        };
        if has_error {
            let r = ButtonState {
                text: String::from_str("RETRY"),
                class: String::from_str("btn-danger"),
                disabled: false,
                action,
            };
            proof {
                assert(r@ =~= button_state_model(status, is_processing, has_error));
            }
            r
        } else {
            let text = match action {
                ButtonAction::Remove => String::from_str("REMOVE"),
                ButtonAction::Install => String::from_str("INSTALL"),
                ButtonAction::Update => String::from_str("UPDATE"),
                ButtonAction::NoAction => String::from_str("UNKNOWN"),
            };
            let class = match action {
                ButtonAction::Remove => String::from_str("btn-danger"),
                ButtonAction::Install => String::from_str("btn-brand"),
                ButtonAction::Update => String::from_str("btn-warning"),
                ButtonAction::NoAction => String::from_str("btn-secondary"),
            };
            let r = ButtonState { text, class, disabled: false, action };
            proof {
                assert(r@ =~= button_state_model(status, is_processing, has_error));
            }
            r
        }
    }
}

/// Map a page of CurseForge search results.
pub fn map_curseforge_mods(mods: &Vec<CurseForgeMod>) -> (r: Vec<UiMod>)
    ensures
        r@.len() == mods@.len(),
        forall|j: int| 0 <= j < r@.len() ==> #[trigger] r@[j]@ == uimod_of_cf(mods@[j]),
{
    let n = mods.len();
    let mut r: Vec<UiMod> = Vec::new();
    let mut i: usize = 0;
    while i < n
        invariant
            n == mods.len(),
            0 <= i <= n,
            r@.len() == i,
            forall|j: int| 0 <= j < i ==> #[trigger] r@[j]@ == uimod_of_cf(mods@[j]),
        decreases n - i,
    {
        r.push(UiMod::from_curseforge_api(&mods[i]));
        i += 1;
    }
    r
}

/// Map a page of ModTale search results.
pub fn map_modtale_mods(mods: &Vec<ModTaleMod>) -> (r: Vec<UiMod>)
    ensures
        r@.len() == mods@.len(),
        forall|j: int| 0 <= j < r@.len() ==> #[trigger] r@[j]@ == uimod_of_modtale(mods@[j]),
{
    let n = mods.len();
    let mut r: Vec<UiMod> = Vec::new();
    let mut i: usize = 0;
    while i < n
        invariant
            n == mods.len(),
            0 <= i <= n,
            r@.len() == i,
            forall|j: int| 0 <= j < i ==> #[trigger] r@[j]@ == uimod_of_modtale(mods@[j]),
        decreases n - i,
    {
        r.push(UiMod::from_modtale_api(&mods[i]));
        i += 1;
    }
    r
}

/// Map the files endpoint's list into versions.
pub fn map_curseforge_files(files: &Vec<ApiFile>) -> (r: Vec<UiModVersion>)
    ensures
        r@.len() == files@.len(),
        forall|j: int|
            0 <= j < r@.len() ==> #[trigger] r@[j]@ == version_of_cf_api_file(files@[j]),
{
    let n = files.len();
    let mut r: Vec<UiModVersion> = Vec::new();
    let mut i: usize = 0;
    while i < n
        invariant
            n == files.len(),
            0 <= i <= n,
            r@.len() == i,
            forall|j: int|
                0 <= j < i ==> #[trigger] r@[j]@ == version_of_cf_api_file(files@[j]),
        decreases n - i,
    {
        r.push(UiModVersion::from_curseforge_api_file(&files[i]));
        i += 1;
    }
    r
}

/// Map an item's ModTale version list into versions.
pub fn map_modtale_files(files: &Vec<ModTaleFile>) -> (r: Vec<UiModVersion>)
    ensures
        r@.len() == files@.len(),
        forall|j: int|
            0 <= j < r@.len() ==> #[trigger] r@[j]@ == version_of_modtale_file(files@[j]),
{
    let n = files.len();
    let mut r: Vec<UiModVersion> = Vec::new();
    let mut i: usize = 0;
    while i < n
        invariant
            n == files.len(),
            0 <= i <= n,
            r@.len() == i,
            forall|j: int|
                0 <= j < i ==> #[trigger] r@[j]@ == version_of_modtale_file(files@[j]),
        decreases n - i,
    {
        r.push(UiModVersion::from_modtale_file(&files[i]));
        i += 1;
    }
    r
}


impl Clone for UiModVersion {
    fn clone(&self) -> (r: Self)
        ensures
            r@ == self@,
    {
        let r = UiModVersion {
            file_id: self.file_id.clone(),
            display_name: self.display_name.clone(),
            file_name: self.file_name.clone(),
            download_url: crate::local_mods::clone_opt_string(&self.download_url),
            release_type: self.release_type,
            game_versions: clone_string_vec(&self.game_versions),
            upload_date: self.upload_date.clone(),
        };
        proof {
            assert(r@ =~= self@);
        }
        r
    }
}

impl Clone for UiMod {
    fn clone(&self) -> (r: Self)
        ensures
            r@ == self@,
    {
        let r = UiMod {
            id: self.id.clone(),
            name: self.name.clone(),
            summary: self.summary.clone(),
            authors: self.authors.clone(),
            download_count: self.download_count,
            categories: clone_string_vec(&self.categories),
            icon: self.icon.clone(),
            banner: self.banner.clone(),
            gallery_urls: clone_string_vec(&self.gallery_urls),
            website_url: self.website_url.clone(),
            version: self.version.clone(),
        };
        proof {
            assert(r@ =~= self@);
        }
        r
    }
}

} // verus!
