use tuxmate_companion::distro::{DistroInfo, DistroVariants};
use tuxmate_companion::package::{Category, SupportedTarget};
use tuxmate_companion::probe::{is_aur_package, is_flathub_verified, is_snap_verified, is_unfree_nix_package};
use tuxmate_companion::registry::{
    app_registry_files, find_app_by_id, get_app_registry_urls, parse_package_arg, resolve_package, AppData, IconDef, KnownPackages,
    PackageDef, VerifiedApps, APP_REGISTRY_DIR_URL,
};
use tuxmate_companion::target_map::TargetMap;

fn icon() -> IconDef {
    IconDef { icon_type: "iconify".to_string(), set: None, name: None, color: None, url: None }
}

fn firefox() -> AppData {
    let mut targets = TargetMap::new();
    targets.insert(SupportedTarget::Ubuntu, "firefox".to_string());
    targets.insert(SupportedTarget::Flatpak, "org.mozilla.firefox".to_string());
    targets.insert(SupportedTarget::Arch, "firefox".to_string());
    AppData {
        id: "firefox".to_string(),
        name: "Firefox".to_string(),
        description: "Web browser".to_string(),
        category: Category::WebBrowsers,
        icon: icon(),
        targets,
        unavailable_reason: None,
        note: None,
    }
}

fn host(v: Option<DistroVariants>) -> DistroInfo {
    let mut d = DistroInfo::new();
    d.variant = v;
    d
}

#[test]
fn package_arguments() {
    assert_eq!(
        parse_package_arg("flatpak/firefox".to_string()),
        PackageDef { package_id: "firefox".to_string(), target_id: Some(SupportedTarget::Flatpak) }
    );
    assert_eq!(
        parse_package_arg("firefox".to_string()),
        PackageDef { package_id: "firefox".to_string(), target_id: None }
    );
    assert_eq!(
        parse_package_arg("windows/firefox".to_string()),
        PackageDef { package_id: "firefox".to_string(), target_id: None }
    );
    assert_eq!(
        parse_package_arg("npm/@scope/pkg".to_string()),
        PackageDef { package_id: "@scope/pkg".to_string(), target_id: Some(SupportedTarget::Npm) }
    );
}

#[test]
fn registry_urls() {
    let urls = get_app_registry_urls();
    assert_eq!(urls.len(), 20);
    assert_eq!(
        urls[0],
        "https://raw.githubusercontent.com/abusoww/tuxmate/refs/heads/main/src/lib/apps/ai-tools.json"
    );
    assert_eq!(urls[19], format!("{}verified-snaps.json", APP_REGISTRY_DIR_URL));
}

#[test]
fn target_map_keeps_first_order_and_last_value() {
    let mut m: TargetMap<String> = TargetMap::new();
    assert!(m.is_empty());
    m.insert(SupportedTarget::Snap, "a".to_string());
    m.insert(SupportedTarget::Nix, "b".to_string());
    m.insert(SupportedTarget::Snap, "c".to_string());
    assert_eq!(m.len(), 2);
    assert_eq!(m.keys(), vec![SupportedTarget::Snap, SupportedTarget::Nix]);
    assert_eq!(m.get(&SupportedTarget::Snap), Some(&"c".to_string()));
    assert_eq!(m.get(&SupportedTarget::Arch), None);
    assert!(m.contains_key(&SupportedTarget::Nix));

    let mut l: TargetMap<Vec<u32>> = TargetMap::new();
    l.push_to(SupportedTarget::Arch, 1);
    l.push_to(SupportedTarget::Npm, 2);
    l.push_to(SupportedTarget::Arch, 3);
    assert_eq!(l.get(&SupportedTarget::Arch), Some(&vec![1, 3]));
    assert_eq!(l.entries()[1], (SupportedTarget::Npm, vec![2]));
}

#[test]
fn resolve_for_named_and_inferred_targets() {
    let app = firefox();
    let named = PackageDef { package_id: "firefox".to_string(), target_id: Some(SupportedTarget::Flatpak) };
    assert_eq!(resolve_package(&named, &host(None), Some(&app)), Ok("org.mozilla.firefox".to_string()));
    let plain = PackageDef { package_id: "firefox".to_string(), target_id: None };
    assert_eq!(resolve_package(&plain, &host(Some(DistroVariants::Ubuntu)), Some(&app)), Ok("firefox".to_string()));
    assert_eq!(resolve_package(&plain, &host(None), Some(&app)), Err(None));
    assert_eq!(resolve_package(&plain, &host(Some(DistroVariants::Ubuntu)), None), Err(None));
}

#[test]
fn resolve_lists_usable_alternatives() {
    let app = firefox();
    let plain = PackageDef { package_id: "firefox".to_string(), target_id: None };
    // on Fedora, the Ubuntu and Arch handles cannot be used; Flatpak can
    assert_eq!(
        resolve_package(&plain, &host(Some(DistroVariants::Fedora)), Some(&app)),
        Err(Some(vec!["flatpak".to_string()]))
    );
    let snap = PackageDef { package_id: "firefox".to_string(), target_id: Some(SupportedTarget::Snap) };
    assert_eq!(
        resolve_package(&snap, &host(Some(DistroVariants::Arch)), Some(&app)),
        Err(Some(vec!["flatpak".to_string(), "arch".to_string()]))
    );
}

fn known(list: &[&str]) -> Option<KnownPackages> {
    Some(KnownPackages { comment: None, packages: list.iter().map(|s| s.to_string()).collect() })
}

fn verified(list: &[&str]) -> Option<VerifiedApps> {
    Some(VerifiedApps { meta: None, count: Some(list.len() as u32), apps: list.iter().map(|s| s.to_string()).collect() })
}

#[test]
fn aur_packages_are_recognised() {
    let k = known(&["spotify"]);
    assert!(is_aur_package("yay-bin", &k));
    assert!(is_aur_package("neovim-git", &k));
    assert!(is_aur_package("cursor-appimage", &k));
    assert!(is_aur_package("spotify", &k));
    assert!(!is_aur_package("firefox", &k));
    // without the list nothing is an AUR package, suffix or not
    assert!(!is_aur_package("yay-bin", &None));
}

#[test]
fn unfree_nix_packages_are_recognised() {
    let k = known(&["vscode", "steam"]);
    assert!(is_unfree_nix_package("  VSCode ", &k));
    assert!(is_unfree_nix_package("steam-run", &k));
    assert!(!is_unfree_nix_package("firefox", &k));
    assert!(!is_unfree_nix_package("steam", &None));
    assert!(is_unfree_nix_package("anything", &known(&[""])));
}

#[test]
fn verified_apps_are_recognised() {
    let f = verified(&["org.mozilla.firefox"]);
    assert!(is_flathub_verified("org.mozilla.firefox", &f));
    assert!(!is_flathub_verified("org.mozilla.Firefox", &f));
    assert!(!is_flathub_verified("org.mozilla.firefox", &None));
    let s = verified(&["code"]);
    assert!(is_snap_verified("code --classic", &s));
    assert!(is_snap_verified("code", &s));
    assert!(!is_snap_verified("vlc", &s));
    assert!(!is_snap_verified("code", &None));
}

#[test]
fn each_category_has_its_own_file() {
    let categories = [
        Category::AITools,
        Category::CLITools,
        Category::Communication,
        Category::Creative,
        Category::DevEditors,
        Category::DevLanguages,
        Category::DevTools,
        Category::FileSharing,
        Category::Gaming,
        Category::Media,
        Category::Office,
        Category::Security,
        Category::System,
        Category::Terminal,
        Category::VPNNetwork,
        Category::WebBrowsers,
    ];
    let files = app_registry_files();
    for (i, c) in categories.iter().enumerate() {
        assert_eq!(format!("apps/{}.json", c.to_id()), files[i]);
        for d in categories.iter().skip(i + 1) {
            assert_ne!(c.to_id(), d.to_id());
        }
    }
    assert_eq!(Category::VPNNetwork.to_id(), "vpn-network");
}

#[test]
fn finding_an_application_by_id() {
    let mut other = firefox();
    other.id = "vlc".to_string();
    let mut second = firefox();
    second.name = "Second".to_string();
    let found = find_app_by_id(vec![other, firefox(), second], "firefox").expect("found");
    assert_eq!(found.name, "Firefox");
    assert!(find_app_by_id(vec![firefox()], "vlc").is_none());
    assert!(find_app_by_id(Vec::new(), "firefox").is_none());
}
