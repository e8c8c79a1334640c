//! Application categories and installation targets of the TuxMate registry.
use vstd::prelude::*;
use crate::text::str_eq;

verus! {

/// The category an application is filed under in the registry.
#[derive(Debug, Clone, Copy, PartialEq, Eq, Hash, Structural)]
pub enum Category {
    AITools,
    CLITools,
    Communication,
    Creative,
    DevEditors,
    DevLanguages,
    DevTools,
    FileSharing,
    Gaming,
    Media,
    Office,
    Security,
    System,
    Terminal,
    VPNNetwork,
    WebBrowsers,
}

impl Category {
    /// The display name of a category, as the registry files spell it.
    pub open spec fn spec_name(self) -> Seq<char> {
        match self {
            Category::AITools => "AI Tools"@,
            Category::CLITools => "CLI Tools"@,
            Category::Communication => "Communication"@,
            Category::Creative => "Creative"@,
            Category::DevEditors => "Dev: Editors"@,
            Category::DevLanguages => "Dev: Languages"@,
            Category::DevTools => "Dev: Tools"@,
            Category::FileSharing => "File Sharing"@,
            Category::Gaming => "Gaming"@,
            Category::Media => "Media"@,
            Category::Office => "Office"@,
            Category::Security => "Security"@,
            Category::System => "System"@,
            Category::Terminal => "Terminal"@,
            Category::VPNNetwork => "VPN & Network"@,
            Category::WebBrowsers => "Web Browsers"@,
        }
    }

    /// The identifier of a category, as used in registry file names.
    pub open spec fn spec_id(self) -> Seq<char> {
        match self {
            Category::AITools => "ai-tools"@,
            Category::CLITools => "cli-tools"@,
            Category::Communication => "communication"@,
            Category::Creative => "creative"@,
            Category::DevEditors => "dev-editors"@,
            Category::DevLanguages => "dev-languages"@,
            Category::DevTools => "dev-tools"@,
            Category::FileSharing => "file-sharing"@,
            Category::Gaming => "gaming"@,
            Category::Media => "media"@,
            Category::Office => "office"@,
            Category::Security => "security"@,
            Category::System => "system"@,
            Category::Terminal => "terminal"@,
            Category::VPNNetwork => "vpn-network"@,
            Category::WebBrowsers => "web-browsers"@,
        }
    }

    /// The category whose display name is `s`, if there is one.
    pub open spec fn spec_from_name(s: Seq<char>) -> Option<Category> {
        if s == "AI Tools"@ {
            Some(Category::AITools)
        } else if s == "CLI Tools"@ {
            Some(Category::CLITools)
        } else if s == "Communication"@ {
            Some(Category::Communication)
        } else if s == "Creative"@ {
            Some(Category::Creative)
        } else if s == "Dev: Editors"@ {
            Some(Category::DevEditors)
        } else if s == "Dev: Languages"@ {
            Some(Category::DevLanguages)
        } else if s == "Dev: Tools"@ {
            Some(Category::DevTools)
        } else if s == "File Sharing"@ {
            Some(Category::FileSharing)
        } else if s == "Gaming"@ {
            Some(Category::Gaming)
        } else if s == "Media"@ {
            Some(Category::Media)
        } else if s == "Office"@ {
            Some(Category::Office)
        } else if s == "Security"@ {
            Some(Category::Security)
        } else if s == "System"@ {
            Some(Category::System)
        } else if s == "Terminal"@ {
            Some(Category::Terminal)
        } else if s == "VPN & Network"@ {
            Some(Category::VPNNetwork)
        } else if s == "Web Browsers"@ {
            Some(Category::WebBrowsers)
        } else {
            None
        }
    }

    /// Parses a category display name. Only the sixteen names of the
    /// registry are accepted.
    pub fn from_name(s: &str) -> (res: Self)
        requires
            Category::spec_from_name(s@) is Some,
        ensures
            Category::spec_from_name(s@) == Some(res),
    {
        if str_eq(s, "AI Tools") {
            Category::AITools
        } else if str_eq(s, "CLI Tools") {
            Category::CLITools
        } else if str_eq(s, "Communication") {
            Category::Communication
        } else if str_eq(s, "Creative") {
            Category::Creative
        } else if str_eq(s, "Dev: Editors") {
            Category::DevEditors
        } else if str_eq(s, "Dev: Languages") {
            Category::DevLanguages
        } else if str_eq(s, "Dev: Tools") {
            Category::DevTools
        } else if str_eq(s, "File Sharing") {
            Category::FileSharing
        } else if str_eq(s, "Gaming") {
            Category::Gaming
        } else if str_eq(s, "Media") {
            Category::Media
        } else if str_eq(s, "Office") {
            Category::Office
        } else if str_eq(s, "Security") {
            Category::Security
        } else if str_eq(s, "System") {
            Category::System
        } else if str_eq(s, "Terminal") {
            Category::Terminal
        } else if str_eq(s, "VPN & Network") {
            Category::VPNNetwork
        } else {
            Category::WebBrowsers
        }
    }

    /// The display name of the category.
    pub fn to_name(&self) -> (res: &str)
        ensures
            res@ == self.spec_name(),
    {
        match self {
            Category::AITools => "AI Tools",
            Category::CLITools => "CLI Tools",
            Category::Communication => "Communication",
            Category::Creative => "Creative",
            Category::DevEditors => "Dev: Editors",
            Category::DevLanguages => "Dev: Languages",
            Category::DevTools => "Dev: Tools",
            Category::FileSharing => "File Sharing",
            Category::Gaming => "Gaming",
            Category::Media => "Media",
            Category::Office => "Office",
            Category::Security => "Security",
            Category::System => "System",
            Category::Terminal => "Terminal",
            Category::VPNNetwork => "VPN & Network",
            Category::WebBrowsers => "Web Browsers",
        }
    }

    /// The identifier of the category.
    pub fn to_id(&self) -> (res: &str)
        ensures
            res@ == self.spec_id(),
    {
        match self {
            Category::AITools => "ai-tools",
            Category::CLITools => "cli-tools",
            Category::Communication => "communication",
            Category::Creative => "creative",
            Category::DevEditors => "dev-editors",
            Category::DevLanguages => "dev-languages",
            Category::DevTools => "dev-tools",
            Category::FileSharing => "file-sharing",
            Category::Gaming => "gaming",
            Category::Media => "media",
            Category::Office => "office",
            Category::Security => "security",
            Category::System => "system",
            Category::Terminal => "terminal",
            Category::VPNNetwork => "vpn-network",
            Category::WebBrowsers => "web-browsers",
        }
    }
}

/// A way of installing an application: a distribution's package manager, a
/// universal package format, or an external script.
#[derive(Debug, Clone, Copy, PartialEq, Eq, Hash, Structural)]
pub enum SupportedTarget {
    Ubuntu,
    Debian,
    Arch,
    Fedora,
    OpenSUSE,
    Nix,
    Flatpak,
    Snap,
    Homebrew,
    Npm,
    Script,
}

/// Declares std's I/O error, the error type of `SupportedTarget::from_id`.
#[verifier::external_type_specification]
#[verifier::external_body]
pub struct ExIoError(std::io::Error);

/// Makes, with `std::io::Error::new`, an error of kind
/// `std::io::ErrorKind::InvalidInput` that carries `message`. Nothing is
/// stated of the result: an `io::Error` is opaque to contracts here, so
/// neither its kind nor its message can be written over plain values.
#[verifier::external_body]
fn invalid_input_error(message: String) -> (res: std::io::Error) {
    std::io::Error::new(std::io::ErrorKind::InvalidInput, message)
}

/// Why a target identifier was refused. The only refusal is of invalid
/// input: an identifier that names no supported target.
#[derive(Debug, Clone, PartialEq, Eq)]
pub enum TargetError {
    /// The identifier names no supported target; it is carried along.
    UnknownTarget(String),
}

impl TargetError {
    /// The identifier that was refused.
    pub open spec fn spec_rejected(self) -> Seq<char> {
        match self {
            TargetError::UnknownTarget(s) => s@,
        }
    }

    /// The text of the error: `Unknown target: ` followed by the identifier.
    pub fn message(&self) -> (res: String)
        ensures
            res@ == "Unknown target: "@ + self.spec_rejected(),
    {
        match self {
            TargetError::UnknownTarget(s) => {
                let prefix = String::from_str("Unknown target: ");
                prefix.concat(s.as_str())
            },
        }
    }
}

impl SupportedTarget {
    /// The identifier of a target, as the registry files spell it.
    pub open spec fn spec_id(self) -> Seq<char> {
        match self {
            SupportedTarget::Ubuntu => "ubuntu"@,
            SupportedTarget::Debian => "debian"@,
            SupportedTarget::Arch => "arch"@,
            SupportedTarget::Fedora => "fedora"@,
            SupportedTarget::OpenSUSE => "opensuse"@,
            SupportedTarget::Nix => "nix"@,
            SupportedTarget::Flatpak => "flatpak"@,
            SupportedTarget::Snap => "snap"@,
            SupportedTarget::Homebrew => "homebrew"@,
            SupportedTarget::Npm => "npm"@,
            SupportedTarget::Script => "script"@,
        }
    }

    /// The human-readable name of a target.
    pub open spec fn spec_name(self) -> Seq<char> {
        match self {
            SupportedTarget::Ubuntu => "Ubuntu"@,
            SupportedTarget::Debian => "Debian"@,
            SupportedTarget::Arch => "Arch Linux"@,
            SupportedTarget::Fedora => "Fedora"@,
            SupportedTarget::OpenSUSE => "OpenSUSE"@,
            SupportedTarget::Nix => "Nix"@,
            SupportedTarget::Flatpak => "Flatpak"@,
            SupportedTarget::Snap => "Snap"@,
            SupportedTarget::Homebrew => "Homebrew"@,
            SupportedTarget::Npm => "NPM"@,
            SupportedTarget::Script => "External Script"@,
        }
    }

    /// The target whose identifier is `s`, if there is one.
    pub open spec fn spec_from_id(s: Seq<char>) -> Option<SupportedTarget> {
        if s == "ubuntu"@ {
            Some(SupportedTarget::Ubuntu)
        } else if s == "debian"@ {
            Some(SupportedTarget::Debian)
        } else if s == "arch"@ {
            Some(SupportedTarget::Arch)
        } else if s == "fedora"@ {
            Some(SupportedTarget::Fedora)
        } else if s == "opensuse"@ {
            Some(SupportedTarget::OpenSUSE)
        } else if s == "nix"@ {
            Some(SupportedTarget::Nix)
        } else if s == "flatpak"@ {
            Some(SupportedTarget::Flatpak)
        } else if s == "snap"@ {
            Some(SupportedTarget::Snap)
        } else if s == "homebrew"@ {
            Some(SupportedTarget::Homebrew)
        } else if s == "npm"@ {
            Some(SupportedTarget::Npm)
        } else if s == "script"@ {
            Some(SupportedTarget::Script)
        } else {
            None
        }
    }

    /// Parses a target identifier, refusing an unknown one as invalid input:
    /// the error is a `std::io::Error` of kind `InvalidInput` whose message
    /// is `TargetError::message` of the refused identifier.
    pub fn from_id(s: &str) -> (res: Result<Self, std::io::Error>)
        ensures
            match SupportedTarget::spec_from_id(s@) {
                Some(t) => res matches Ok(u) && u == t,
                None => res is Err,
            },
    {
        match SupportedTarget::parse_id(s) {
            Ok(t) => Ok(t),
            Err(e) => Err(invalid_input_error(e.message())),
        }
    }

    /// Parses a target identifier; an unknown identifier is refused with
    /// `TargetError::UnknownTarget` carrying it.
    pub fn parse_id(s: &str) -> (res: Result<Self, TargetError>)
        ensures
            match SupportedTarget::spec_from_id(s@) {
                Some(t) => res == Ok::<SupportedTarget, TargetError>(t),
                None => res is Err && res->Err_0.spec_rejected() == s@,
            },
    {
        if str_eq(s, "ubuntu") {
            Ok(SupportedTarget::Ubuntu)
        } else if str_eq(s, "debian") {
            Ok(SupportedTarget::Debian)
        } else if str_eq(s, "arch") {
            Ok(SupportedTarget::Arch)
        } else if str_eq(s, "fedora") {
            Ok(SupportedTarget::Fedora)
        } else if str_eq(s, "opensuse") {
            Ok(SupportedTarget::OpenSUSE)
        } else if str_eq(s, "nix") {
            Ok(SupportedTarget::Nix)
        } else if str_eq(s, "flatpak") {
            Ok(SupportedTarget::Flatpak)
        } else if str_eq(s, "snap") {
            Ok(SupportedTarget::Snap)
        } else if str_eq(s, "homebrew") {
            Ok(SupportedTarget::Homebrew)
        } else if str_eq(s, "npm") {
            Ok(SupportedTarget::Npm)
        } else if str_eq(s, "script") {
            Ok(SupportedTarget::Script)
        } else {
            Err(TargetError::UnknownTarget(s.to_owned()))
        }
    }

    /// The identifier of the target.
    pub fn to_id(&self) -> (res: &str)
        ensures
            res@ == self.spec_id(),
    {
        match self {
            SupportedTarget::Ubuntu => "ubuntu",
            SupportedTarget::Debian => "debian",
            SupportedTarget::Arch => "arch",
            SupportedTarget::Fedora => "fedora",
            SupportedTarget::OpenSUSE => "opensuse",
            SupportedTarget::Nix => "nix",
            SupportedTarget::Flatpak => "flatpak",
            SupportedTarget::Snap => "snap",
            SupportedTarget::Homebrew => "homebrew",
            SupportedTarget::Npm => "npm",
            SupportedTarget::Script => "script",
        }
    }

    /// The human-readable name of the target.
    pub fn to_name(&self) -> (res: &str)
        ensures
            res@ == self.spec_name(),
    {
        match self {
            SupportedTarget::Ubuntu => "Ubuntu",
            SupportedTarget::Debian => "Debian",
            SupportedTarget::Arch => "Arch Linux",
            SupportedTarget::Fedora => "Fedora",
            SupportedTarget::OpenSUSE => "OpenSUSE",
            SupportedTarget::Nix => "Nix",
            SupportedTarget::Flatpak => "Flatpak",
            SupportedTarget::Snap => "Snap",
            SupportedTarget::Homebrew => "Homebrew",
            SupportedTarget::Npm => "NPM",
            SupportedTarget::Script => "External Script",
        }
    }
}

/// Parsing the identifier of a target gives that target back, and a parsed
/// target's identifier is the text that was parsed.
pub proof fn lemma_target_id_roundtrip(t: SupportedTarget, s: Seq<char>)
    ensures
        SupportedTarget::spec_from_id(t.spec_id()) == Some(t),
        SupportedTarget::spec_from_id(s) matches Some(u) ==> u.spec_id() == s,
{
        reveal_strlit("ubuntu");
        reveal_strlit("debian");
        reveal_strlit("arch");
        reveal_strlit("fedora");
        reveal_strlit("opensuse");
        reveal_strlit("nix");
        reveal_strlit("flatpak");
        reveal_strlit("snap");
        reveal_strlit("homebrew");
        reveal_strlit("npm");
        reveal_strlit("script");
        assert("ubuntu"@[0] == 'u' && "ubuntu"@[1] == 'b' && "ubuntu"@[5] == 'u');
        assert("debian"@[0] == 'd' && "debian"@[1] == 'e' && "debian"@[5] == 'n');
        assert("arch"@[0] == 'a' && "arch"@[1] == 'r');
        assert("fedora"@[0] == 'f' && "fedora"@[1] == 'e' && "fedora"@[5] == 'a');
        assert("opensuse"@[0] == 'o' && "opensuse"@[1] == 'p' && "opensuse"@[5] == 'u');
        assert("nix"@[0] == 'n' && "nix"@[1] == 'i');
        assert("flatpak"@[0] == 'f' && "flatpak"@[1] == 'l' && "flatpak"@[5] == 'a');
        assert("snap"@[0] == 's' && "snap"@[1] == 'n');
        assert("homebrew"@[0] == 'h' && "homebrew"@[1] == 'o' && "homebrew"@[5] == 'r');
        assert("npm"@[0] == 'n' && "npm"@[1] == 'p');
        assert("script"@[0] == 's' && "script"@[1] == 'c' && "script"@[5] == 't');
}

/// Every target's identifier is the registry's spelling of it (ubuntu,
/// debian, arch, fedora, opensuse, nix, flatpak, snap, homebrew, npm,
/// script), and parsing that spelling gives the target.
pub proof fn lemma_target_spellings()
    ensures
        SupportedTarget::Ubuntu.spec_id() == "ubuntu"@,
        SupportedTarget::spec_from_id("ubuntu"@) == Some(SupportedTarget::Ubuntu),
        SupportedTarget::Debian.spec_id() == "debian"@,
        SupportedTarget::spec_from_id("debian"@) == Some(SupportedTarget::Debian),
        SupportedTarget::Arch.spec_id() == "arch"@,
        SupportedTarget::spec_from_id("arch"@) == Some(SupportedTarget::Arch),
        SupportedTarget::Fedora.spec_id() == "fedora"@,
        SupportedTarget::spec_from_id("fedora"@) == Some(SupportedTarget::Fedora),
        SupportedTarget::OpenSUSE.spec_id() == "opensuse"@,
        SupportedTarget::spec_from_id("opensuse"@) == Some(SupportedTarget::OpenSUSE),
        SupportedTarget::Nix.spec_id() == "nix"@,
        SupportedTarget::spec_from_id("nix"@) == Some(SupportedTarget::Nix),
        SupportedTarget::Flatpak.spec_id() == "flatpak"@,
        SupportedTarget::spec_from_id("flatpak"@) == Some(SupportedTarget::Flatpak),
        SupportedTarget::Snap.spec_id() == "snap"@,
        SupportedTarget::spec_from_id("snap"@) == Some(SupportedTarget::Snap),
        SupportedTarget::Homebrew.spec_id() == "homebrew"@,
        SupportedTarget::spec_from_id("homebrew"@) == Some(SupportedTarget::Homebrew),
        SupportedTarget::Npm.spec_id() == "npm"@,
        SupportedTarget::spec_from_id("npm"@) == Some(SupportedTarget::Npm),
        SupportedTarget::Script.spec_id() == "script"@,
        SupportedTarget::spec_from_id("script"@) == Some(SupportedTarget::Script),
{
    lemma_target_id_roundtrip(SupportedTarget::Ubuntu, Seq::empty());
    lemma_target_id_roundtrip(SupportedTarget::Debian, Seq::empty());
    lemma_target_id_roundtrip(SupportedTarget::Arch, Seq::empty());
    lemma_target_id_roundtrip(SupportedTarget::Fedora, Seq::empty());
    lemma_target_id_roundtrip(SupportedTarget::OpenSUSE, Seq::empty());
    lemma_target_id_roundtrip(SupportedTarget::Nix, Seq::empty());
    lemma_target_id_roundtrip(SupportedTarget::Flatpak, Seq::empty());
    lemma_target_id_roundtrip(SupportedTarget::Snap, Seq::empty());
    lemma_target_id_roundtrip(SupportedTarget::Homebrew, Seq::empty());
    lemma_target_id_roundtrip(SupportedTarget::Npm, Seq::empty());
    lemma_target_id_roundtrip(SupportedTarget::Script, Seq::empty());
}

/// Parsing the display name of a category gives that category back, and a
/// parsed category's display name is the text that was parsed.
pub proof fn lemma_category_name_roundtrip(c: Category, s: Seq<char>)
    ensures
        Category::spec_from_name(c.spec_name()) == Some(c),
        Category::spec_from_name(s) matches Some(d) ==> d.spec_name() == s,
{
        reveal_strlit("AI Tools");
        reveal_strlit("CLI Tools");
        reveal_strlit("Communication");
        reveal_strlit("Creative");
        reveal_strlit("Dev: Editors");
        reveal_strlit("Dev: Languages");
        reveal_strlit("Dev: Tools");
        reveal_strlit("File Sharing");
        reveal_strlit("Gaming");
        reveal_strlit("Media");
        reveal_strlit("Office");
        reveal_strlit("Security");
        reveal_strlit("System");
        reveal_strlit("Terminal");
        reveal_strlit("VPN & Network");
        reveal_strlit("Web Browsers");
        assert("AI Tools"@[0] == 'A' && "AI Tools"@[1] == 'I' && "AI Tools"@[5] == 'o');
        assert("CLI Tools"@[0] == 'C' && "CLI Tools"@[1] == 'L' && "CLI Tools"@[5] == 'o');
        assert("Communication"@[0] == 'C' && "Communication"@[1] == 'o' && "Communication"@[5] == 'n');
        assert("Creative"@[0] == 'C' && "Creative"@[1] == 'r' && "Creative"@[5] == 'i');
        assert("Dev: Editors"@[0] == 'D' && "Dev: Editors"@[1] == 'e' && "Dev: Editors"@[5] == 'E');
        assert("Dev: Languages"@[0] == 'D' && "Dev: Languages"@[1] == 'e' && "Dev: Languages"@[5] == 'L');
        assert("Dev: Tools"@[0] == 'D' && "Dev: Tools"@[1] == 'e' && "Dev: Tools"@[5] == 'T');
        assert("File Sharing"@[0] == 'F' && "File Sharing"@[1] == 'i' && "File Sharing"@[5] == 'S');
        assert("Gaming"@[0] == 'G' && "Gaming"@[1] == 'a' && "Gaming"@[5] == 'g');
        assert("Media"@[0] == 'M' && "Media"@[1] == 'e');
        assert("Office"@[0] == 'O' && "Office"@[1] == 'f' && "Office"@[5] == 'e');
        assert("Security"@[0] == 'S' && "Security"@[1] == 'e' && "Security"@[5] == 'i');
        assert("System"@[0] == 'S' && "System"@[1] == 'y' && "System"@[5] == 'm');
        assert("Terminal"@[0] == 'T' && "Terminal"@[1] == 'e' && "Terminal"@[5] == 'n');
        assert("VPN & Network"@[0] == 'V' && "VPN & Network"@[1] == 'P' && "VPN & Network"@[5] == ' ');
        assert("Web Browsers"@[0] == 'W' && "Web Browsers"@[1] == 'e' && "Web Browsers"@[5] == 'r');
}

} // verus!
