//! The application registry: its records, the lists of known and verified
//! packages, and the resolution of a requested package to a target handle.
use vstd::prelude::*;
use crate::distro::{DistroInfo, DistroVariants, spec_target_supported};
use crate::package::{Category, SupportedTarget};
use crate::target_map::{TargetMap, keys_of, lookup};
use crate::text::{str_eq, lemma_first_index_at, lemma_first_index_none, prefix_each, split_once, split_once_exec, views};

verus! {

/// Where the registry files are published.
pub const APP_REGISTRY_DIR_URL: &'static str = "https://raw.githubusercontent.com/abusoww/tuxmate/refs/heads/main/src/lib/";

/// The registry files, relative to `APP_REGISTRY_DIR_URL`.
pub open spec fn spec_registry_files() -> Seq<Seq<char>> {
    seq![
        "apps/ai-tools.json"@,
        "apps/cli-tools.json"@,
        "apps/communication.json"@,
        "apps/creative.json"@,
        "apps/dev-editors.json"@,
        "apps/dev-languages.json"@,
        "apps/dev-tools.json"@,
        "apps/file-sharing.json"@,
        "apps/gaming.json"@,
        "apps/media.json"@,
        "apps/office.json"@,
        "apps/security.json"@,
        "apps/system.json"@,
        "apps/terminal.json"@,
        "apps/vpn-network.json"@,
        "apps/web-browsers.json"@,
        "aur-packages.json"@,
        "nix-unfree.json"@,
        "verified-flatpaks.json"@,
        "verified-snaps.json"@,
    ]
}

/// The registry files, relative to `APP_REGISTRY_DIR_URL`.
pub fn app_registry_files() -> (res: Vec<&'static str>)
    ensures
        res@.len() == spec_registry_files().len(),
        forall|i: int| 0 <= i < res@.len() ==> #[trigger] res@[i]@ == spec_registry_files()[i],
{
    let res = vec![
        "apps/ai-tools.json",
        "apps/cli-tools.json",
        "apps/communication.json",
        "apps/creative.json",
        "apps/dev-editors.json",
        "apps/dev-languages.json",
        "apps/dev-tools.json",
        "apps/file-sharing.json",
        "apps/gaming.json",
        "apps/media.json",
        "apps/office.json",
        "apps/security.json",
        "apps/system.json",
        "apps/terminal.json",
        "apps/vpn-network.json",
        "apps/web-browsers.json",
        "aur-packages.json",
        "nix-unfree.json",
        "verified-flatpaks.json",
        "verified-snaps.json",
    ];
    res
}

/// The address of every registry file.
pub fn get_app_registry_urls() -> (res: Vec<String>)
    ensures
        views(res@) == prefix_each(spec_registry_files(), APP_REGISTRY_DIR_URL@),
{
    let files = app_registry_files();
    let mut res: Vec<String> = Vec::new();
    let mut i: usize = 0;
    while i < files.len()
        invariant
            i <= files.len(),
            files@.len() == spec_registry_files().len(),
            forall|j: int| 0 <= j < files@.len() ==> #[trigger] files@[j]@ == spec_registry_files()[j],
            views(res@) == prefix_each(spec_registry_files().take(i as int), APP_REGISTRY_DIR_URL@),
        decreases files.len() - i,
    {
        let url = String::from_str(APP_REGISTRY_DIR_URL).concat(files[i]);
        assert(files@[i as int]@ == spec_registry_files()[i as int]);
        let ghost old_res = res@;
        res.push(url);
        assert(views(res@) =~= views(old_res).push(url@));
        assert(views(res@) =~= prefix_each(spec_registry_files().take(i + 1), APP_REGISTRY_DIR_URL@));
        i = i + 1;
    }
    assert(spec_registry_files().take(i as int) =~= spec_registry_files());
    res
}

/// The position of a category's file among the registry files: the
/// categories in the order in which they are declared.
pub open spec fn category_file_index(c: Category) -> int {
    match c {
        Category::AITools => 0,
        Category::CLITools => 1,
        Category::Communication => 2,
        Category::Creative => 3,
        Category::DevEditors => 4,
        Category::DevLanguages => 5,
        Category::DevTools => 6,
        Category::FileSharing => 7,
        Category::Gaming => 8,
        Category::Media => 9,
        Category::Office => 10,
        Category::Security => 11,
        Category::System => 12,
        Category::Terminal => 13,
        Category::VPNNetwork => 14,
        Category::WebBrowsers => 15,
    }
}

/// The registry file of a category is `apps/<identifier>.json`, and it is
/// the file at the category's position among the first sixteen registry
/// files; each of those sixteen positions belongs to a category, and
/// different categories have different identifiers. So every category has a
/// file of its own, and every category file has its category.
pub proof fn lemma_category_files(c: Category, d: Category, i: int)
    requires
        0 <= i < 16,
    ensures
        0 <= category_file_index(c) < 16,
        "apps/"@ + c.spec_id() + ".json"@ == spec_registry_files()[category_file_index(c)],
        exists|e: Category| category_file_index(e) == i,
        c != d ==> c.spec_id() != d.spec_id(),
{
    reveal_strlit("apps/");
    reveal_strlit(".json");
    reveal_strlit("ai-tools");
    reveal_strlit("apps/ai-tools.json");
    reveal_strlit("cli-tools");
    reveal_strlit("apps/cli-tools.json");
    reveal_strlit("communication");
    reveal_strlit("apps/communication.json");
    reveal_strlit("creative");
    reveal_strlit("apps/creative.json");
    reveal_strlit("dev-editors");
    reveal_strlit("apps/dev-editors.json");
    reveal_strlit("dev-languages");
    reveal_strlit("apps/dev-languages.json");
    reveal_strlit("dev-tools");
    reveal_strlit("apps/dev-tools.json");
    reveal_strlit("file-sharing");
    reveal_strlit("apps/file-sharing.json");
    reveal_strlit("gaming");
    reveal_strlit("apps/gaming.json");
    reveal_strlit("media");
    reveal_strlit("apps/media.json");
    reveal_strlit("office");
    reveal_strlit("apps/office.json");
    reveal_strlit("security");
    reveal_strlit("apps/security.json");
    reveal_strlit("system");
    reveal_strlit("apps/system.json");
    reveal_strlit("terminal");
    reveal_strlit("apps/terminal.json");
    reveal_strlit("vpn-network");
    reveal_strlit("apps/vpn-network.json");
    reveal_strlit("web-browsers");
    reveal_strlit("apps/web-browsers.json");
    match c {
        Category::AITools => {
            assert("apps/"@ + "ai-tools"@ + ".json"@ =~= "apps/ai-tools.json"@);
        },
        Category::CLITools => {
            assert("apps/"@ + "cli-tools"@ + ".json"@ =~= "apps/cli-tools.json"@);
        },
        Category::Communication => {
            assert("apps/"@ + "communication"@ + ".json"@ =~= "apps/communication.json"@);
        },
        Category::Creative => {
            assert("apps/"@ + "creative"@ + ".json"@ =~= "apps/creative.json"@);
        },
        Category::DevEditors => {
            assert("apps/"@ + "dev-editors"@ + ".json"@ =~= "apps/dev-editors.json"@);
        },
        Category::DevLanguages => {
            assert("apps/"@ + "dev-languages"@ + ".json"@ =~= "apps/dev-languages.json"@);
        },
        Category::DevTools => {
            assert("apps/"@ + "dev-tools"@ + ".json"@ =~= "apps/dev-tools.json"@);
        },
        Category::FileSharing => {
            assert("apps/"@ + "file-sharing"@ + ".json"@ =~= "apps/file-sharing.json"@);
        },
        Category::Gaming => {
            assert("apps/"@ + "gaming"@ + ".json"@ =~= "apps/gaming.json"@);
        },
        Category::Media => {
            assert("apps/"@ + "media"@ + ".json"@ =~= "apps/media.json"@);
        },
        Category::Office => {
            assert("apps/"@ + "office"@ + ".json"@ =~= "apps/office.json"@);
        },
        Category::Security => {
            assert("apps/"@ + "security"@ + ".json"@ =~= "apps/security.json"@);
        },
        Category::System => {
            assert("apps/"@ + "system"@ + ".json"@ =~= "apps/system.json"@);
        },
        Category::Terminal => {
            assert("apps/"@ + "terminal"@ + ".json"@ =~= "apps/terminal.json"@);
        },
        Category::VPNNetwork => {
            assert("apps/"@ + "vpn-network"@ + ".json"@ =~= "apps/vpn-network.json"@);
        },
        Category::WebBrowsers => {
            assert("apps/"@ + "web-browsers"@ + ".json"@ =~= "apps/web-browsers.json"@);
        },
    }
    assert(category_file_index(Category::AITools) == 0);
    assert(category_file_index(Category::CLITools) == 1);
    assert(category_file_index(Category::Communication) == 2);
    assert(category_file_index(Category::Creative) == 3);
    assert(category_file_index(Category::DevEditors) == 4);
    assert(category_file_index(Category::DevLanguages) == 5);
    assert(category_file_index(Category::DevTools) == 6);
    assert(category_file_index(Category::FileSharing) == 7);
    assert(category_file_index(Category::Gaming) == 8);
    assert(category_file_index(Category::Media) == 9);
    assert(category_file_index(Category::Office) == 10);
    assert(category_file_index(Category::Security) == 11);
    assert(category_file_index(Category::System) == 12);
    assert(category_file_index(Category::Terminal) == 13);
    assert(category_file_index(Category::VPNNetwork) == 14);
    assert(category_file_index(Category::WebBrowsers) == 15);
    assert("ai-tools"@[0] == 'a' && "ai-tools"@[1] == 'i' && "ai-tools"@[4] == 'o');
    assert("cli-tools"@[0] == 'c' && "cli-tools"@[1] == 'l' && "cli-tools"@[4] == 't');
    assert("communication"@[0] == 'c' && "communication"@[1] == 'o' && "communication"@[4] == 'u');
    assert("creative"@[0] == 'c' && "creative"@[1] == 'r' && "creative"@[4] == 't');
    assert("dev-editors"@[0] == 'd' && "dev-editors"@[1] == 'e' && "dev-editors"@[4] == 'e');
    assert("dev-languages"@[0] == 'd' && "dev-languages"@[1] == 'e' && "dev-languages"@[4] == 'l');
    assert("dev-tools"@[0] == 'd' && "dev-tools"@[1] == 'e' && "dev-tools"@[4] == 't');
    assert("file-sharing"@[0] == 'f' && "file-sharing"@[1] == 'i' && "file-sharing"@[4] == '-');
    assert("gaming"@[0] == 'g' && "gaming"@[1] == 'a' && "gaming"@[4] == 'n');
    assert("media"@[0] == 'm' && "media"@[1] == 'e' && "media"@[4] == 'a');
    assert("office"@[0] == 'o' && "office"@[1] == 'f' && "office"@[4] == 'c');
    assert("security"@[0] == 's' && "security"@[1] == 'e' && "security"@[4] == 'r');
    assert("system"@[0] == 's' && "system"@[1] == 'y' && "system"@[4] == 'e');
    assert("terminal"@[0] == 't' && "terminal"@[1] == 'e' && "terminal"@[4] == 'i');
    assert("vpn-network"@[0] == 'v' && "vpn-network"@[1] == 'p' && "vpn-network"@[4] == 'n');
    assert("web-browsers"@[0] == 'w' && "web-browsers"@[1] == 'e' && "web-browsers"@[4] == 'b');
}

/// How an application's icon is drawn.
#[derive(Debug, Clone, PartialEq, Eq)]
pub struct IconDef {
    /// `iconify` or `url`.
    pub icon_type: String,
    pub set: Option<String>,
    pub name: Option<String>,
    pub color: Option<String>,
    /// Only for the `url` type.
    pub url: Option<String>,
}

/// One application of the registry.
pub struct AppData {
    pub id: String,
    pub name: String,
    pub description: String,
    pub category: Category,
    pub icon: IconDef,
    /// The package handle of the application for each target it supports.
    pub targets: TargetMap<String>,
    pub unavailable_reason: Option<String>,
    pub note: Option<String>,
}

/// The first application of `apps` whose identifier is `id`, if there is one.
pub fn find_app_by_id(apps: Vec<AppData>, id: &str) -> (res: Option<AppData>)
    ensures
        res is None <==> (forall|i: int| 0 <= i < apps@.len() ==> apps@[i].id@ != id@),
        res matches Some(a) ==> exists|i: int|
            0 <= i < apps@.len() && apps@[i] == a && apps@[i].id@ == id@ && (forall|j: int|
                0 <= j < i ==> apps@[j].id@ != id@),
{
    let mut i: usize = 0;
    while i < apps.len() && !str_eq(apps[i].id.as_str(), id)
        invariant
            i <= apps.len(),
            forall|j: int| 0 <= j < i ==> apps@[j].id@ != id@,
        decreases apps.len() - i,
    {
        i = i + 1;
    }
    if i < apps.len() {
        let mut apps = apps;
        Some(apps.remove(i))
    } else {
        None
    }
}

/// A list of package names, with an optional comment.
#[derive(Debug, Clone, PartialEq, Eq)]
pub struct KnownPackages {
    pub comment: Option<String>,
    pub packages: Vec<String>,
}

/// When a list of verified applications was fetched.
#[derive(Debug, Clone, PartialEq, Eq)]
pub struct VerifiedAppsMetadata {
    /// The time of the fetch, as RFC 3339 text.
    pub fetched_at: Option<String>,
}

/// A list of verified application identifiers.
#[derive(Debug, Clone, PartialEq, Eq)]
pub struct VerifiedApps {
    pub meta: Option<VerifiedAppsMetadata>,
    pub count: Option<u32>,
    pub apps: Vec<String>,
}

/// A requested package: its registry identifier and, optionally, the target
/// to install it for.
#[derive(Debug, Clone, PartialEq, Eq, Hash)]
pub struct PackageDef {
    pub package_id: String,
    pub target_id: Option<SupportedTarget>,
}

/// Reads a package argument, `<package_id>` or `<target_id>/<package_id>`.
/// The text is cut at its first `/`; an unknown target identifier before it
/// is read as no target at all.
pub fn parse_package_arg(arg: String) -> (res: PackageDef)
    ensures
        match split_once(arg@, '/') {
            Some((t, p)) => res.package_id@ == p && res.target_id == SupportedTarget::spec_from_id(t),
            None => res.package_id@ == arg@ && res.target_id is None,
        },
{
    match split_once_exec(arg.as_str(), '/') {
        Some((target_id, package_id)) => {
            let target_id = match SupportedTarget::parse_id(target_id) {
                Ok(target) => Some(target),
                Err(_) => None,
            };
            PackageDef { package_id: package_id.to_owned(), target_id }
        },
        None => PackageDef { package_id: arg, target_id: None },
    }
}

/// A package argument `<target_id>/<package_id>` names that target and
/// that package (the package identifier may itself hold `/`), and an
/// argument without `/` is a package identifier with no target.
pub proof fn lemma_parse_package_arg(t: SupportedTarget, id: Seq<char>, plain: Seq<char>)
    requires
        forall|i: int| 0 <= i < plain.len() ==> plain[i] != '/',
    ensures
        split_once(t.spec_id() + seq!['/'] + id, '/') == Some((t.spec_id(), id)),
        SupportedTarget::spec_from_id(t.spec_id()) == Some(t),
        split_once(plain, '/') is None,
{
    crate::package::lemma_target_id_roundtrip(t, t.spec_id());
    let tid = t.spec_id();
    let s = tid + seq!['/'] + id;
    assert(forall|j: int| 0 <= j < tid.len() ==> tid[j] != '/') by {
        reveal_strlit("ubuntu");
        reveal_strlit("debian");
        reveal_strlit("arch");
        reveal_strlit("fedora");
        reveal_strlit("opensuse");
        reveal_strlit("nix");
        reveal_strlit("flatpak");
        reveal_strlit("snap");
        reveal_strlit("homebrew");
        reveal_strlit("npm");
        reveal_strlit("script");
    }
    assert forall|j: int| 0 <= j < tid.len() implies s[j] != '/' by {
        assert(s[j] == tid[j]);
    }
    assert(s[tid.len() as int] == '/');
    lemma_first_index_at(s, '/', tid.len() as int);
    assert(s.take(tid.len() as int) =~= tid);
    assert(s.skip(tid.len() as int + 1) =~= id);
    lemma_first_index_none(plain, '/');
}

/// The target a package is resolved for: the one it names, or else the
/// host family's own target.
pub open spec fn spec_resolve_target(target_id: Option<SupportedTarget>, variant: Option<DistroVariants>) -> Option<SupportedTarget> {
    match target_id {
        Some(t) => Some(t),
        None => match variant {
            Some(v) => Some(v.spec_target()),
            None => None,
        },
    }
}

/// The identifiers of those targets that can be used on a host of the given
/// family, in order.
pub open spec fn supported_ids(keys: Seq<SupportedTarget>, variant: Option<DistroVariants>) -> Seq<Seq<char>>
    decreases keys.len(),
{
    if keys.len() == 0 {
        Seq::empty()
    } else {
        let rest = supported_ids(keys.drop_last(), variant);
        if spec_target_supported(variant, Some(keys.last())) {
            rest.push(keys.last().spec_id())
        } else {
            rest
        }
    }
}

/// The alternatives offered for a record are the identifiers of exactly the
/// record's targets that the host can use, in the record's order: every
/// usable target's identifier is offered, everything offered is the
/// identifier of a usable target, and the offers for two runs of targets
/// one after the other are those of the first run followed by those of the
/// second.
pub proof fn lemma_supported_ids(keys: Seq<SupportedTarget>, more: Seq<SupportedTarget>, variant: Option<DistroVariants>, k: SupportedTarget)
    ensures
        keys.contains(k) && spec_target_supported(variant, Some(k)) ==> supported_ids(keys, variant).contains(k.spec_id()),
        forall|x: Seq<char>| #[trigger] supported_ids(keys, variant).contains(x) ==> exists|m: SupportedTarget|
            keys.contains(m) && spec_target_supported(variant, Some(m)) && m.spec_id() == x,
        supported_ids(keys + more, variant) == supported_ids(keys, variant) + supported_ids(more, variant),
    decreases keys.len() + more.len(),
{
    let ids = supported_ids(keys, variant);
    if more.len() > 0 {
        lemma_supported_ids(keys, more.drop_last(), variant, k);
        assert((keys + more).drop_last() =~= keys + more.drop_last());
        assert((keys + more).last() == more.last());
        assert(supported_ids(keys + more, variant) =~= supported_ids(keys, variant) + supported_ids(more, variant));
    } else {
        assert(keys + more =~= keys);
        assert(supported_ids(more, variant) =~= Seq::<Seq<char>>::empty());
        assert(supported_ids(keys, variant) + supported_ids(more, variant) =~= supported_ids(keys, variant));
        if keys.len() > 0 {
            let d = keys.drop_last();
            lemma_supported_ids(d, more, variant, k);
            let rest = supported_ids(d, variant);
            if keys.contains(k) && spec_target_supported(variant, Some(k)) {
                let i = choose|i: int| 0 <= i < keys.len() && keys[i] == k;
                if i < keys.len() - 1 {
                    assert(d[i] == k);
                    assert(d.contains(k));
                    let j = choose|j: int| 0 <= j < rest.len() && rest[j] == k.spec_id();
                    let last_usable = spec_target_supported(variant, Some(keys.last()));
                    if last_usable {
                        assert(ids[j] == rest[j]);
                    }
                } else {
                    assert(ids[rest.len() as int] == k.spec_id());
                }
            }
            assert forall|x: Seq<char>| #[trigger] ids.contains(x) implies exists|m: SupportedTarget|
                keys.contains(m) && spec_target_supported(variant, Some(m)) && m.spec_id() == x by {
                let j = choose|j: int| 0 <= j < ids.len() && ids[j] == x;
                if j < rest.len() {
                    assert(rest[j] == x);
                    assert(rest.contains(x));
                    let m = choose|m: SupportedTarget| d.contains(m) && spec_target_supported(variant, Some(m)) && m.spec_id() == x;
                    let a = choose|a: int| 0 <= a < d.len() && d[a] == m;
                    assert(keys[a] == m);
                } else {
                    assert(keys[keys.len() - 1] == keys.last());
                    assert(keys.contains(keys.last()));
                }
            }
        }
    }
}

/// Resolves a requested package to its handle for a target.
///
/// `app_data` is the registry record of the package, `None` when none was
/// found. With no record, or no target named and none to infer from the
/// host, the answer is `Err(None)`. When the record has no handle for the
/// target, the answer lists the identifiers of the record's targets that can
/// be used on this host.
pub fn resolve_package(
    package: &PackageDef,
    distro_info: &DistroInfo,
    app_data: Option<&AppData>,
) -> (res: Result<String, Option<Vec<String>>>)
    ensures
        match app_data {
            None => res matches Err(None),
            Some(app) => match spec_resolve_target(package.target_id, distro_info.variant) {
                None => res matches Err(None),
                Some(t) => match lookup(app.targets.spec_entries(), t) {
                    Some(h) => res matches Ok(r) && r@ == h@,
                    None => res matches Err(Some(v)) && views(v@) == supported_ids(
                        keys_of(app.targets.spec_entries()),
                        distro_info.variant,
                    ),
                },
            },
        },
{
    let app = match app_data {
        Some(a) => a,
        None => return Err(None),
    };
    let target_id = match package.target_id {
        Some(id) => id,
        None => match &distro_info.variant {
            Some(variant) => variant.to_target(),
            None => return Err(None),
        },
    };
    match app.targets.get(&target_id) {
        Some(handle) => Ok(handle.clone()),
        None => {
            let keys = app.targets.keys();
            let mut supported: Vec<String> = Vec::new();
            let mut i: usize = 0;
            while i < keys.len()
                invariant
                    i <= keys.len(),
                    views(supported@) == supported_ids(keys@.take(i as int), distro_info.variant),
                decreases keys.len() - i,
            {
                let k = keys[i];
                assert(keys@.take(i + 1).drop_last() =~= keys@.take(i as int));
                if distro_info.is_target_supported(&Some(k)) {
                    supported.push(k.to_id().to_owned());
                    assert(views(supported@) =~= supported_ids(keys@.take(i as int), distro_info.variant).push(
                        k.spec_id(),
                    ));
                }
                i = i + 1;
            }
            assert(keys@.take(keys.len() as int) =~= keys@);
            Err(Some(supported))
        },
    }
}

} // verus!
