use tuxmate_companion::package::{Category, SupportedTarget, TargetError};
use tuxmate_companion::distro::DistroVariants;

const ALL_TARGETS: [SupportedTarget; 11] = [
    SupportedTarget::Ubuntu,
    SupportedTarget::Debian,
    SupportedTarget::Arch,
    SupportedTarget::Fedora,
    SupportedTarget::OpenSUSE,
    SupportedTarget::Nix,
    SupportedTarget::Flatpak,
    SupportedTarget::Snap,
    SupportedTarget::Homebrew,
    SupportedTarget::Npm,
    SupportedTarget::Script,
];

#[test]
fn target_ids_round_trip() {
    for t in ALL_TARGETS {
        assert_eq!(SupportedTarget::from_id(t.to_id()).unwrap(), t);
        assert_eq!(SupportedTarget::parse_id(t.to_id()), Ok(t));
    }
}

#[test]
fn target_ids_and_names() {
    assert_eq!(SupportedTarget::OpenSUSE.to_id(), "opensuse");
    assert_eq!(SupportedTarget::Arch.to_name(), "Arch Linux");
    assert_eq!(SupportedTarget::Npm.to_name(), "NPM");
    assert_eq!(SupportedTarget::Script.to_name(), "External Script");
    assert_eq!(SupportedTarget::Homebrew.to_id(), "homebrew");
}

#[test]
fn unknown_target_is_refused() {
    let err = SupportedTarget::from_id("windows").unwrap_err();
    assert_eq!(err.kind(), std::io::ErrorKind::InvalidInput);
    assert_eq!(err.to_string(), "Unknown target: windows");
    let refused = SupportedTarget::parse_id("windows").unwrap_err();
    assert_eq!(refused, TargetError::UnknownTarget("windows".to_string()));
    assert_eq!(refused.message(), "Unknown target: windows");
    // identifiers are case-sensitive
    assert!(SupportedTarget::from_id("Ubuntu").is_err());
    assert!(SupportedTarget::from_id("").is_err());
    assert!(SupportedTarget::parse_id("").is_err());
}

#[test]
fn category_names_round_trip() {
    let all = [
        Category::AITools,
        Category::CLITools,
        Category::Communication,
        Category::Creative,
        Category::DevEditors,
        Category::DevLanguages,
        Category::DevTools,
        Category::FileSharing,
        Category::Gaming,
        Category::Media,
        Category::Office,
        Category::Security,
        Category::System,
        Category::Terminal,
        Category::VPNNetwork,
        Category::WebBrowsers,
    ];
    for c in all {
        assert_eq!(Category::from_name(c.to_name()), c);
    }
    assert_eq!(Category::from_name("VPN & Network"), Category::VPNNetwork);
    assert_eq!(Category::DevEditors.to_name(), "Dev: Editors");
    assert_eq!(Category::DevEditors.to_id(), "dev-editors");
    assert_eq!(Category::VPNNetwork.to_id(), "vpn-network");
}

#[test]
fn variants_and_targets() {
    let all = [
        DistroVariants::Ubuntu,
        DistroVariants::Debian,
        DistroVariants::Arch,
        DistroVariants::Fedora,
        DistroVariants::OpenSUSE,
        DistroVariants::NixOS,
    ];
    for v in all {
        assert_eq!(DistroVariants::from_target(&v.to_target()), Some(v));
        assert_eq!(DistroVariants::from_name(v.to_name()), Some(v));
    }
    assert_eq!(DistroVariants::NixOS.to_target(), SupportedTarget::Nix);
    assert_eq!(DistroVariants::from_target(&SupportedTarget::Flatpak), None);
    assert_eq!(DistroVariants::OpenSUSE.to_name(), "openSUSE");
    assert_eq!(DistroVariants::Ubuntu.to_rgb(), (255, 136, 0));
    assert_eq!(DistroVariants::NixOS.to_rgb(), (86, 109, 185));
}

#[test]
fn variant_from_name_ignores_case() {
    assert_eq!(DistroVariants::from_name("ARCH"), Some(DistroVariants::Arch));
    assert_eq!(DistroVariants::from_name("arch linux"), Some(DistroVariants::Arch));
    assert_eq!(DistroVariants::from_name("OpenSuse"), Some(DistroVariants::OpenSUSE));
    assert_eq!(DistroVariants::from_name("Mint"), None);
    assert_eq!(DistroVariants::from_name(" ubuntu"), None);
}
