use tuxmate_companion::distro::{DistroInfo, DistroVariants};
use tuxmate_companion::generate::{AurPlan, CommandGenerator, ComposeError, DependencyError, SortOutcome};
use tuxmate_companion::package::{Category, SupportedTarget};
use tuxmate_companion::registry::{AppData, IconDef, KnownPackages, PackageDef, VerifiedApps};
use tuxmate_companion::target_map::TargetMap;

fn s(v: &[&str]) -> Vec<String> {
    v.iter().map(|x| x.to_string()).collect()
}

fn gen() -> CommandGenerator {
    CommandGenerator::new(DistroInfo::new())
}

fn app(id: &str, targets: &[(SupportedTarget, &str)]) -> AppData {
    let mut m = TargetMap::new();
    for (t, h) in targets {
        m.insert(*t, h.to_string());
    }
    AppData {
        id: id.to_string(),
        name: id.to_string(),
        description: String::new(),
        category: Category::System,
        icon: IconDef { icon_type: "url".to_string(), set: None, name: None, color: None, url: None },
        targets: m,
        unavailable_reason: None,
        note: None,
    }
}

fn host(v: Option<DistroVariants>) -> DistroInfo {
    let mut d = DistroInfo::new();
    d.variant = v;
    d
}

fn pkg(id: &str, t: Option<SupportedTarget>) -> PackageDef {
    PackageDef { package_id: id.to_string(), target_id: t }
}

#[test]
fn package_manager_commands() {
    let g = gen();
    assert_eq!(g.generate_apt_command(s(&["vim", "git"])), "sudo apt update && sudo apt install -y vim git");
    assert_eq!(g.generate_pacman_command(s(&["vim"])), "sudo pacman -S --needed --noconfirm vim");
    assert_eq!(g.generate_aur_command(s(&["yay-bin", "x"]), "paru".to_string()), "paru -S --needed --noconfirm yay-bin x");
    assert_eq!(g.generate_dnf_command(s(&["vim"])), "sudo dnf install -y vim");
    assert_eq!(g.generate_zypper_command(s(&["vim"])), "sudo zypper install -y vim");
    assert_eq!(g.generate_nix_command(s(&["vim", "git"])), "sudo nix-env -iA nixpkgs.vim nixpkgs.git");
    assert_eq!(
        g.generate_flatpak_command(s(&["org.a.B"])),
        "flatpak remote-add --if-not-exists flathub https://dl.flathub.org/repo/flathub.flatpakrepo && flatpak install flathub -y org.a.B"
    );
    assert_eq!(g.generate_snap_command(s(&["code --classic", "vlc"])), "sudo snap install code --classic && sudo snap install vlc");
    assert_eq!(g.generate_snap_command(Vec::new()), "");
    assert_eq!(g.generate_npm_command(s(&["pnpm"])), "npm install -g pnpm");
    assert_eq!(g.generate_script_command(s(&["curl a | sh", "curl b | sh"])), "curl a | sh && curl b | sh");
    assert_eq!(
        g.generate_aur_helper_install_command("yay".to_string()),
        "mkdir -p /tmp/tuxmate-aur-build && cd /tmp/tuxmate-aur-build && git clone https://aur.archlinux.org/yay.git && cd yay && makepkg -si --noconfirm && cd .. && rm -rf /tmp/tuxmate-aur-build"
    );
}

#[test]
fn homebrew_formulae_then_casks() {
    let g = gen();
    assert_eq!(
        g.generate_homebrew_command(s(&["--cask firefox", "git", "wget"])),
        "brew install git && brew install wget && brew install --cask firefox"
    );
    assert_eq!(
        g.generate_homebrew_command(s(&["wget", "--cask firefox", "jq"])),
        "brew install wget && brew install jq && brew install --cask firefox"
    );
    assert_eq!(g.generate_homebrew_command(s(&["--cask zed"])), "brew install --cask zed");
    assert_eq!(g.generate_homebrew_command(s(&["git"])), "brew install git");
    assert_eq!(g.generate_homebrew_command(Vec::new()), "");
}

#[test]
fn nix_configuration_lines() {
    let g = gen();
    assert_eq!(
        g.generate_nix_config(s(&["vim", "git"])),
        "# In /etc/nixos/configuration.nix\n\nenvironment.systemPackages = with pkgs; [\n    vim\n    git\n];"
    );
}

#[test]
fn sorting_and_composing() {
    let mut g = CommandGenerator::new(host(Some(DistroVariants::Ubuntu)));
    let vim = app("vim", &[(SupportedTarget::Ubuntu, "vim"), (SupportedTarget::Snap, "nvim --classic")]);
    let zed = app("zed", &[(SupportedTarget::Flatpak, "dev.zed.Zed")]);
    assert!(matches!(g.sort_package(&pkg("vim", None), Some(&vim)), SortOutcome::Added(SupportedTarget::Ubuntu)));
    assert!(matches!(g.sort_package(&pkg("vim", Some(SupportedTarget::Snap)), Some(&vim)), SortOutcome::Added(SupportedTarget::Snap)));
    assert!(matches!(g.sort_package(&pkg("vim", Some(SupportedTarget::Arch)), Some(&vim)), SortOutcome::Unsupported));
    assert!(matches!(g.sort_package(&pkg("ghost", None), None), SortOutcome::Unresolved));
    match g.sort_package(&pkg("zed", None), Some(&zed)) {
        SortOutcome::NeedsAlternative(opts) => assert_eq!(opts, s(&["flatpak"])),
        _ => panic!("expected alternatives"),
    }
    assert!(g.sort_package_for(&pkg("zed", None), SupportedTarget::Flatpak, Some(&zed)));
    assert!(!g.sort_package_for(&pkg("zed", None), SupportedTarget::Npm, Some(&zed)));
    assert!(!g.has_no_packages());
    assert_eq!(g.package_entries().len(), 3);

    assert_eq!(g.dependency_commands(), Err(DependencyError::MissingSnap));
    assert_eq!(g.generate_installation_command(), Ok(()));
    assert_eq!(
        g.generated_command(),
        "sudo apt update && sudo apt install -y vim && sudo snap install nvim --classic && flatpak remote-add --if-not-exists flathub https://dl.flathub.org/repo/flathub.flatpakrepo && flatpak install flathub -y dev.zed.Zed"
    );
    assert_eq!(g.generated_config(), "");
}

#[test]
fn nothing_to_compose() {
    let mut g = gen();
    assert!(g.has_no_packages());
    assert_eq!(g.generate_installation_command(), Ok(()));
    assert_eq!(g.generated_command(), "");
    assert_eq!(g.dependency_commands(), Ok(Vec::new()));
}

fn arch_host(helper: Option<&str>) -> DistroInfo {
    let mut d = host(Some(DistroVariants::Arch));
    d.aur_helper = helper.map(|h| h.to_string());
    d.has_aur = helper.is_some();
    d
}

#[test]
fn aur_flow_with_detected_helper() {
    let mut g = CommandGenerator::new(arch_host(Some("paru")));
    let a = app("spot", &[(SupportedTarget::Arch, "spotify-bin")]);
    let b = app("vim", &[(SupportedTarget::Arch, "vim")]);
    g.sort_package(&pkg("spot", None), Some(&a));
    g.sort_package(&pkg("vim", None), Some(&b));
    let aur = Some(KnownPackages { comment: None, packages: Vec::new() });
    g.classify_packages(&aur, &None, &None, &None);
    assert_eq!(g.aur_packages(), &s(&["spotify-bin"]));
    assert_eq!(g.plan_aur_helper(), AurPlan::Detected("paru".to_string()));
    assert_eq!(g.preferred_aur_helper(), &Some("paru".to_string()));
    assert_eq!(g.dependency_commands(), Ok(Vec::new()));
    assert_eq!(g.generate_installation_command(), Ok(()));
    // with AUR packages every Arch package is installed through the helper
    assert_eq!(g.generated_command(), "paru -S --needed --noconfirm spotify-bin vim");
}

#[test]
fn every_handle_is_installed() {
    let mut d = arch_host(Some("yay"));
    d.has_flatpak = true;
    let mut g = CommandGenerator::new(d);
    let firefox = app("firefox", &[(SupportedTarget::Arch, "firefox")]);
    let yay = app("yay", &[(SupportedTarget::Arch, "yay-bin")]);
    let zed = app("zed", &[(SupportedTarget::Flatpak, "dev.zed.Zed")]);
    g.sort_package(&pkg("firefox", None), Some(&firefox));
    g.sort_package(&pkg("yay", None), Some(&yay));
    g.sort_package(&pkg("zed", Some(SupportedTarget::Flatpak)), Some(&zed));
    let aur = Some(KnownPackages { comment: None, packages: s(&["yay-bin"]) });
    g.classify_packages(&aur, &None, &None, &None);
    assert_eq!(g.aur_packages(), &s(&["yay-bin"]));
    assert_eq!(g.plan_aur_helper(), AurPlan::Detected("yay".to_string()));
    assert_eq!(g.dependency_commands(), Ok(Vec::new()));
    assert_eq!(g.generate_installation_command(), Ok(()));
    let command = g.generated_command().clone();
    for handle in ["firefox", "yay-bin", "dev.zed.Zed"] {
        assert!(command.contains(handle), "{} is missing from {}", handle, command);
    }
    assert_eq!(
        command,
        "yay -S --needed --noconfirm firefox yay-bin && flatpak remote-add --if-not-exists flathub https://dl.flathub.org/repo/flathub.flatpakrepo && flatpak install flathub -y dev.zed.Zed"
    );
}

#[test]
fn homebrew_casks_are_installed_by_name() {
    let mut d = host(None);
    d.has_homebrew = true;
    let mut g = CommandGenerator::new(d);
    let a = app("firefox", &[(SupportedTarget::Homebrew, "--cask firefox")]);
    let b = app("wget", &[(SupportedTarget::Homebrew, "wget")]);
    assert!(g.sort_package_for(&pkg("firefox", None), SupportedTarget::Homebrew, Some(&a)));
    assert!(g.sort_package_for(&pkg("wget", None), SupportedTarget::Homebrew, Some(&b)));
    assert_eq!(g.dependency_commands(), Ok(Vec::new()));
    assert_eq!(g.generate_installation_command(), Ok(()));
    assert_eq!(g.generated_command(), "brew install wget && brew install --cask firefox");
}

#[test]
fn aur_flow_installing_a_helper() {
    let mut g = CommandGenerator::new(arch_host(None));
    let a = app("spot", &[(SupportedTarget::Arch, "spotify-bin")]);
    g.sort_package(&pkg("spot", None), Some(&a));
    let aur = Some(KnownPackages { comment: None, packages: Vec::new() });
    g.classify_packages(&aur, &None, &None, &None);
    assert_eq!(g.plan_aur_helper(), AurPlan::NeedsInstall);
    assert_eq!(g.dependency_commands(), Err(DependencyError::AurHelperDeclined));
    assert_eq!(g.generate_installation_command(), Err(ComposeError::NoPreferredAurHelper));
    assert_eq!(g.generated_command(), "");
    g.choose_aur_helper_to_install("yay".to_string());
    assert!(g.install_aur_helper());
    assert_eq!(
        g.dependency_commands(),
        Ok(s(&["mkdir -p /tmp/tuxmate-aur-build && cd /tmp/tuxmate-aur-build && git clone https://aur.archlinux.org/yay.git && cd yay && makepkg -si --noconfirm && cd .. && rm -rf /tmp/tuxmate-aur-build"]))
    );
    assert_eq!(g.generate_installation_command(), Ok(()));
    assert_eq!(g.generated_command(), "yay -S --needed --noconfirm spotify-bin");
}

#[test]
fn no_aur_plan_off_arch() {
    let mut g = CommandGenerator::new(host(Some(DistroVariants::Fedora)));
    assert_eq!(g.plan_aur_helper(), AurPlan::NotNeeded);
}

#[test]
fn nix_packages_as_configuration() {
    let mut d = host(Some(DistroVariants::NixOS));
    d.has_nix = true;
    let mut g = CommandGenerator::new(d);
    let a = app("vscode", &[(SupportedTarget::Nix, "vscode")]);
    g.sort_package(&pkg("vscode", None), Some(&a));
    let unfree = Some(KnownPackages { comment: None, packages: s(&["vscode"]) });
    g.classify_packages(&None, &unfree, &None, &None);
    assert_eq!(g.nix_unfree_packages(), &s(&["vscode"]));
    // with unfree packages there is no choice: configuration lines it is
    assert!(!g.needs_nix_choice());
    g.apply_nix_choice(false);
    assert!(g.get_nix_config());
    assert_eq!(g.dependency_commands(), Ok(Vec::new()));
    assert_eq!(g.generate_installation_command(), Ok(()));
    assert_eq!(g.generated_command(), "");
    assert_eq!(
        g.generated_config(),
        "# In /etc/nixos/configuration.nix\n\nnixpkgs.config.allowUnfree = true; # Allow installation of unfree packages, add this line to your NixOS configuration, if not already present.\n\nenvironment.systemPackages = with pkgs; [\n    vscode\n];"
    );
}

#[test]
fn nix_packages_as_commands() {
    let mut d = host(Some(DistroVariants::Ubuntu));
    d.has_nix = true;
    let mut g = CommandGenerator::new(d);
    let a = app("git", &[(SupportedTarget::Nix, "git")]);
    g.sort_package(&pkg("git", Some(SupportedTarget::Nix)), Some(&a));
    g.classify_packages(&None, &None, &None, &None);
    assert!(g.needs_nix_choice());
    g.apply_nix_choice(false);
    assert!(!g.get_nix_config());
    assert_eq!(g.generate_installation_command(), Ok(()));
    assert_eq!(g.generated_command(), "sudo nix-env -iA nixpkgs.git");
}

#[test]
fn unverified_flatpak_and_snap() {
    let mut g = CommandGenerator::new(host(Some(DistroVariants::Debian)));
    let a = app("a", &[(SupportedTarget::Flatpak, "org.a.A")]);
    let b = app("b", &[(SupportedTarget::Snap, "bee --classic")]);
    let c = app("c", &[(SupportedTarget::Snap, "cee")]);
    g.sort_package(&pkg("a", Some(SupportedTarget::Flatpak)), Some(&a));
    g.sort_package(&pkg("b", Some(SupportedTarget::Snap)), Some(&b));
    g.sort_package(&pkg("c", Some(SupportedTarget::Snap)), Some(&c));
    let flathub = Some(VerifiedApps { meta: None, count: None, apps: Vec::new() });
    let snap = Some(VerifiedApps { meta: None, count: None, apps: s(&["bee"]) });
    g.classify_packages(&None, &None, &flathub, &snap);
    assert_eq!(g.flathub_unverified_packages(), &s(&["org.a.A"]));
    assert_eq!(g.snap_unverified_packages(), &s(&["cee"]));
    assert_eq!(g.dependency_commands(), Err(DependencyError::MissingFlatpak));
}

#[test]
fn missing_tools_are_reported() {
    let cases = [
        (SupportedTarget::Nix, DependencyError::MissingNix),
        (SupportedTarget::Homebrew, DependencyError::MissingHomebrew),
        (SupportedTarget::Npm, DependencyError::MissingNpm),
        (SupportedTarget::Script, DependencyError::MissingCurl),
    ];
    for (t, e) in cases {
        let mut g = gen();
        let a = app("x", &[(t, "x")]);
        assert!(g.sort_package_for(&pkg("x", None), t, Some(&a)));
        assert_eq!(g.dependency_commands(), Err(e));
    }
    let mut g = gen();
    let a = app("x", &[(SupportedTarget::Flatpak, "x"), (SupportedTarget::Snap, "x")]);
    g.sort_package_for(&pkg("x", None), SupportedTarget::Snap, Some(&a));
    g.sort_package_for(&pkg("x", None), SupportedTarget::Flatpak, Some(&a));
    // the first target, in the order the targets were added, is reported
    assert_eq!(g.dependency_commands(), Err(DependencyError::MissingSnap));
}
