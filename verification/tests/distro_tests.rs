use tuxmate_companion::distro::{
    classify_variant, lookup_entry, parse_os_release, split_lines, DistroInfo, DistroVariants,
    HostProbe,
};
use tuxmate_companion::package::SupportedTarget;

fn probe() -> HostProbe {
    HostProbe {
        nixos_markers: false,
        has_nix: false,
        has_flatpak: true,
        has_snap: false,
        has_homebrew: false,
        has_npm: true,
        has_curl: true,
        has_yay: false,
        has_paru: false,
        has_pacman: false,
        has_makepkg: false,
    }
}

#[test]
fn new_host_knows_nothing() {
    let d = DistroInfo::new();
    assert_eq!(d.name, "");
    assert_eq!(d.variant, None);
    assert!(!d.has_aur && !d.has_nix && !d.has_curl);
    assert_eq!(d.aur_helper, None);
}

#[test]
fn lines_are_cut_at_newlines() {
    assert_eq!(split_lines("a\nb\n"), vec!["a".to_string(), "b".to_string(), "".to_string()]);
    assert_eq!(split_lines(""), vec!["".to_string()]);
}

#[test]
fn os_release_is_parsed() {
    let text = "# comment\nNAME=\"Ubuntu\"\n\n  ID=ubuntu  \nVERSION_ID='22.04'\r\nPRETTY_NAME=\"Ubuntu 22.04.3 LTS\"\nno_equals_here\nKEY=a=b\n";
    let entries = parse_os_release(text);
    assert_eq!(
        entries,
        vec![
            ("NAME".to_string(), "Ubuntu".to_string()),
            ("ID".to_string(), "ubuntu".to_string()),
            ("VERSION_ID".to_string(), "22.04".to_string()),
            ("PRETTY_NAME".to_string(), "Ubuntu 22.04.3 LTS".to_string()),
            ("KEY".to_string(), "a=b".to_string()),
        ]
    );
}

#[test]
fn later_entries_override_earlier_ones() {
    let entries = parse_os_release("ID=debian\nID=kali\n");
    assert_eq!(lookup_entry(&entries, "ID"), Some("kali".to_string()));
    assert_eq!(lookup_entry(&entries, "NAME"), None);
}

#[test]
fn families_are_classified_by_id() {
    assert_eq!(classify_variant("linuxmint", false), Some(DistroVariants::Ubuntu));
    assert_eq!(classify_variant("pop", false), Some(DistroVariants::Ubuntu));
    assert_eq!(classify_variant("raspbian", false), Some(DistroVariants::Debian));
    assert_eq!(classify_variant("endeavouros", false), Some(DistroVariants::Arch));
    assert_eq!(classify_variant("opensuse-tumbleweed", false), Some(DistroVariants::OpenSUSE));
    assert_eq!(classify_variant("gentoo", true), Some(DistroVariants::NixOS));
    assert_eq!(classify_variant("gentoo", false), None);
    // an id is searched in order: "ubuntu" comes before "arch"
    assert_eq!(classify_variant("ubuntu-arch", false), Some(DistroVariants::Ubuntu));
}

#[test]
fn fetch_fills_in_the_host() {
    let mut d = DistroInfo::new();
    d.fetch("PRETTY_NAME=\"Fedora Linux 39\"\nID=fedora\nVERSION_ID=39\n", &probe());
    assert_eq!(d.name, "Fedora Linux 39");
    assert_eq!(d.pretty_name, "Fedora Linux 39");
    assert_eq!(d.id, "fedora");
    assert_eq!(d.version, "39");
    assert_eq!(d.variant, Some(DistroVariants::Fedora));
    assert!(d.has_flatpak && d.has_npm && d.has_curl && !d.has_snap);
    assert!(!d.has_aur);
    assert_eq!(d.aur_helper, None);
}

#[test]
fn fetch_uses_defaults_and_nixos_markers() {
    let mut d = DistroInfo::new();
    d.fetch("", &probe());
    assert_eq!(d.name, "Unknown");
    assert_eq!(d.id, "unknown");
    assert_eq!(d.version, "Unknown");
    assert_eq!(d.variant, None);

    let mut p = probe();
    p.nixos_markers = true;
    d.fetch("", &p);
    assert_eq!(d.variant, Some(DistroVariants::NixOS));

    d.fetch("PRETTY_NAME=\"My NixOS box\"\nID=custom\n", &probe());
    assert_eq!(d.variant, Some(DistroVariants::NixOS));
}

#[test]
fn aur_helpers_are_preferred_in_order() {
    let mut p = probe();
    p.has_paru = true;
    p.has_pacman = true;
    p.has_makepkg = true;
    assert_eq!(DistroInfo::detect_aur_helper(&p), Some("paru".to_string()));
    p.has_yay = true;
    assert_eq!(DistroInfo::detect_aur_helper(&p), Some("yay".to_string()));
    p.has_yay = false;
    p.has_paru = false;
    assert_eq!(DistroInfo::detect_aur_helper(&p), Some("base-aur".to_string()));
    p.has_makepkg = false;
    assert_eq!(DistroInfo::detect_aur_helper(&p), None);

    let mut d = DistroInfo::new();
    let mut q = probe();
    q.has_yay = true;
    d.fetch("ID=arch\n", &q);
    assert!(d.has_aur);
    assert_eq!(d.aur_helper, Some("yay".to_string()));
    assert_eq!(d.variant, Some(DistroVariants::Arch));
}

#[test]
fn targets_supported_by_family() {
    let mut d = DistroInfo::new();
    d.variant = Some(DistroVariants::Debian);
    assert!(d.is_target_supported(&None));
    assert!(d.is_target_supported(&Some(SupportedTarget::Debian)));
    assert!(!d.is_target_supported(&Some(SupportedTarget::Ubuntu)));
    assert!(!d.is_target_supported(&Some(SupportedTarget::Arch)));
    assert!(d.is_target_supported(&Some(SupportedTarget::Flatpak)));
    assert!(d.is_target_supported(&Some(SupportedTarget::Nix)));
    d.variant = None;
    assert!(!d.is_target_supported(&Some(SupportedTarget::Fedora)));
    assert!(d.is_target_supported(&Some(SupportedTarget::Script)));
}
