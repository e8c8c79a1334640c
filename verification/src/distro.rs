//! The host Linux distribution: its family, the package tools it offers, and
//! the parsing of `/etc/os-release` into those facts.
use vstd::prelude::*;
use crate::package::SupportedTarget;
use crate::text::{
    all_ascii, ascii_lower, has_infix, lowercase, split_once, str_eq, to_lowercase, trimmed,
    unquoted, contains, split_once_exec, trim, trim_quotes,
};

verus! {

/// The distribution families whose native package manager is supported.
#[derive(Debug, Clone, Copy, PartialEq, Eq, Structural)]
pub enum DistroVariants {
    Ubuntu,
    Debian,
    Arch,
    Fedora,
    OpenSUSE,
    NixOS,
}

impl DistroVariants {
    /// The display name of a family.
    pub open spec fn spec_name(self) -> Seq<char> {
        match self {
            DistroVariants::Ubuntu => "Ubuntu"@,
            DistroVariants::Debian => "Debian"@,
            DistroVariants::Arch => "Arch Linux"@,
            DistroVariants::Fedora => "Fedora"@,
            DistroVariants::OpenSUSE => "openSUSE"@,
            DistroVariants::NixOS => "NixOS"@,
        }
    }

    /// The family named by an already lowercased name.
    pub open spec fn spec_from_lower(s: Seq<char>) -> Option<DistroVariants> {
        if s == "ubuntu"@ {
            Some(DistroVariants::Ubuntu)
        } else if s == "debian"@ {
            Some(DistroVariants::Debian)
        } else if s == "arch"@ || s == "arch linux"@ {
            Some(DistroVariants::Arch)
        } else if s == "fedora"@ {
            Some(DistroVariants::Fedora)
        } else if s == "opensuse"@ {
            Some(DistroVariants::OpenSUSE)
        } else if s == "nixos"@ {
            Some(DistroVariants::NixOS)
        } else {
            None
        }
    }

    /// The installation target of the family's own package manager.
    pub open spec fn spec_target(self) -> SupportedTarget {
        match self {
            DistroVariants::Ubuntu => SupportedTarget::Ubuntu,
            DistroVariants::Debian => SupportedTarget::Debian,
            DistroVariants::Arch => SupportedTarget::Arch,
            DistroVariants::Fedora => SupportedTarget::Fedora,
            DistroVariants::OpenSUSE => SupportedTarget::OpenSUSE,
            DistroVariants::NixOS => SupportedTarget::Nix,
        }
    }

    /// The family whose package manager a target is, if it is one.
    pub open spec fn spec_from_target(t: SupportedTarget) -> Option<DistroVariants> {
        match t {
            SupportedTarget::Ubuntu => Some(DistroVariants::Ubuntu),
            SupportedTarget::Debian => Some(DistroVariants::Debian),
            SupportedTarget::Arch => Some(DistroVariants::Arch),
            SupportedTarget::Fedora => Some(DistroVariants::Fedora),
            SupportedTarget::OpenSUSE => Some(DistroVariants::OpenSUSE),
            SupportedTarget::Nix => Some(DistroVariants::NixOS),
            _ => None,
        }
    }

    /// The brand colour of a family, as red, green and blue.
    pub open spec fn spec_rgb(self) -> (u8, u8, u8) {
        match self {
            DistroVariants::Ubuntu => (255, 136, 0),
            DistroVariants::Debian => (166, 0, 51),
            DistroVariants::Arch => (23, 147, 209),
            DistroVariants::Fedora => (83, 159, 221),
            DistroVariants::OpenSUSE => (114, 185, 42),
            DistroVariants::NixOS => (86, 109, 185),
        }
    }

    /// The display name of the family.
    pub fn to_name(&self) -> (res: &'static str)
        ensures
            res@ == self.spec_name(),
    {
        match self {
            DistroVariants::Ubuntu => "Ubuntu",
            DistroVariants::Debian => "Debian",
            DistroVariants::Arch => "Arch Linux",
            DistroVariants::Fedora => "Fedora",
            DistroVariants::OpenSUSE => "openSUSE",
            DistroVariants::NixOS => "NixOS",
        }
    }

    /// The family a name stands for, compared without regard to case.
    pub fn from_name(name: &str) -> (res: Option<Self>)
        ensures
            res == DistroVariants::spec_from_lower(lowercase(name@)),
            all_ascii(name@) ==> res == DistroVariants::spec_from_lower(ascii_lower(name@)),
    {
        let lower = to_lowercase(name);
        let s = lower.as_str();
        if str_eq(s, "ubuntu") {
            Some(DistroVariants::Ubuntu)
        } else if str_eq(s, "debian") {
            Some(DistroVariants::Debian)
        } else if str_eq(s, "arch") || str_eq(s, "arch linux") {
            Some(DistroVariants::Arch)
        } else if str_eq(s, "fedora") {
            Some(DistroVariants::Fedora)
        } else if str_eq(s, "opensuse") {
            Some(DistroVariants::OpenSUSE)
        } else if str_eq(s, "nixos") {
            Some(DistroVariants::NixOS)
        } else {
            None
        }
    }

    /// The installation target of the family's own package manager.
    pub fn to_target(&self) -> (res: SupportedTarget)
        ensures
            res == self.spec_target(),
    {
        match self {
            DistroVariants::Ubuntu => SupportedTarget::Ubuntu,
            DistroVariants::Debian => SupportedTarget::Debian,
            DistroVariants::Arch => SupportedTarget::Arch,
            DistroVariants::Fedora => SupportedTarget::Fedora,
            DistroVariants::OpenSUSE => SupportedTarget::OpenSUSE,
            DistroVariants::NixOS => SupportedTarget::Nix,
        }
    }

    /// The family whose package manager `target` is, if it is one.
    pub fn from_target(target: &SupportedTarget) -> (res: Option<Self>)
        ensures
            res == DistroVariants::spec_from_target(*target),
    {
        match target {
            SupportedTarget::Ubuntu => Some(DistroVariants::Ubuntu),
            SupportedTarget::Debian => Some(DistroVariants::Debian),
            SupportedTarget::Arch => Some(DistroVariants::Arch),
            SupportedTarget::Fedora => Some(DistroVariants::Fedora),
            SupportedTarget::OpenSUSE => Some(DistroVariants::OpenSUSE),
            SupportedTarget::Nix => Some(DistroVariants::NixOS),
            _ => None,
        }
    }

    /// The brand colour of the family.
    pub fn to_rgb(&self) -> (res: (u8, u8, u8))
        ensures
            res == self.spec_rgb(),
    {
        match self {
            DistroVariants::Ubuntu => (255, 136, 0),
            DistroVariants::Debian => (166, 0, 51),
            DistroVariants::Arch => (23, 147, 209),
            DistroVariants::Fedora => (83, 159, 221),
            DistroVariants::OpenSUSE => (114, 185, 42),
            DistroVariants::NixOS => (86, 109, 185),
        }
    }
}

/// The family's own target maps back to the family, and a target that
/// belongs to a family is that family's own target.
pub proof fn lemma_variant_target_roundtrip(v: DistroVariants, t: SupportedTarget)
    ensures
        DistroVariants::spec_from_target(v.spec_target()) == Some(v),
        DistroVariants::spec_from_target(t) matches Some(w) ==> w.spec_target() == t,
{
}

/// Every family's display name is ASCII, and it names that family again.
pub proof fn lemma_variant_name_roundtrip(v: DistroVariants)
    ensures
        all_ascii(v.spec_name()),
        DistroVariants::spec_from_lower(ascii_lower(v.spec_name())) == Some(v),
{
    reveal_strlit("Ubuntu");
    reveal_strlit("Debian");
    reveal_strlit("Arch Linux");
    reveal_strlit("Fedora");
    reveal_strlit("openSUSE");
    reveal_strlit("NixOS");
    reveal_strlit("ubuntu");
    reveal_strlit("debian");
    reveal_strlit("arch");
    reveal_strlit("arch linux");
    reveal_strlit("fedora");
    reveal_strlit("opensuse");
    reveal_strlit("nixos");
    let n = v.spec_name();
    let l = ascii_lower(n);
    match v {
        DistroVariants::Ubuntu => {
            assert(l =~= "ubuntu"@);
        },
        DistroVariants::Debian => {
            assert(l =~= "debian"@);
            assert("ubuntu"@[0] == 'u');
        },
        DistroVariants::Arch => {
            assert(l =~= "arch linux"@);
            assert("ubuntu"@[0] == 'u' && "debian"@[0] == 'd');
            assert("arch"@.len() == 4);
        },
        DistroVariants::Fedora => {
            assert(l =~= "fedora"@);
            assert("ubuntu"@[0] == 'u' && "debian"@[0] == 'd' && "arch"@[0] == 'a' && "arch linux"@[0] == 'a');
        },
        DistroVariants::OpenSUSE => {
            assert(l =~= "opensuse"@);
            assert("ubuntu"@[0] == 'u' && "debian"@[0] == 'd' && "arch"@[0] == 'a' && "arch linux"@[0] == 'a' && "fedora"@[0] == 'f');
        },
        DistroVariants::NixOS => {
            assert(l =~= "nixos"@);
            assert("ubuntu"@[0] == 'u' && "debian"@[0] == 'd' && "arch"@[0] == 'a' && "arch linux"@[0] == 'a' && "fedora"@[0] == 'f' && "opensuse"@[0] == 'o');
        },
    }
}

/// What the host was found to offer, by probes of its file system and of
/// the commands on its path.
#[derive(Debug, Clone, Copy, PartialEq, Eq)]
pub struct HostProbe {
    /// `/etc/nixos` or `/run/current-system` exists.
    pub nixos_markers: bool,
    pub has_nix: bool,
    pub has_flatpak: bool,
    pub has_snap: bool,
    pub has_homebrew: bool,
    pub has_npm: bool,
    pub has_curl: bool,
    /// `yay --version` succeeds.
    pub has_yay: bool,
    /// `paru --version` succeeds.
    pub has_paru: bool,
    /// `pacman --version` succeeds.
    pub has_pacman: bool,
    /// `makepkg --version` succeeds.
    pub has_makepkg: bool,
}

/// What is known of the host distribution.
#[derive(Debug, Clone)]
pub struct DistroInfo {
    pub name: String,
    pub id: String,
    pub version: String,
    pub pretty_name: String,
    pub variant: Option<DistroVariants>,
    pub has_nix: bool,
    pub has_flatpak: bool,
    pub has_snap: bool,
    pub has_homebrew: bool,
    pub has_npm: bool,
    pub has_curl: bool,
    pub has_aur: bool,
    /// `yay`, `paru`, or `base-aur` when only `pacman` and `makepkg` are there.
    pub aur_helper: Option<String>,
}

/// Whether a target can be used on a host of the given family: a
/// distribution's own target only on that distribution, every other target
/// (and no target at all) everywhere.
pub open spec fn spec_target_supported(variant: Option<DistroVariants>, target: Option<SupportedTarget>) -> bool {
    match target {
        Some(SupportedTarget::Ubuntu) => variant == Some(DistroVariants::Ubuntu),
        Some(SupportedTarget::Debian) => variant == Some(DistroVariants::Debian),
        Some(SupportedTarget::Arch) => variant == Some(DistroVariants::Arch),
        Some(SupportedTarget::Fedora) => variant == Some(DistroVariants::Fedora),
        Some(SupportedTarget::OpenSUSE) => variant == Some(DistroVariants::OpenSUSE),
        _ => true,
    }
}

/// A family's own target can be used on that family; a target of no family,
/// and no target at all, can be used on every host; a family's target cannot
/// be used on a host of another family (Nix aside, which every host may use).
/// So Nix, Flatpak, Snap, Homebrew, npm and scripts can be used on every
/// host, and the Ubuntu, Debian, Arch, Fedora and openSUSE targets only on a
/// host of that family.
pub proof fn lemma_target_supported(v: Option<DistroVariants>, w: DistroVariants, t: SupportedTarget)
    ensures
        spec_target_supported(Some(w), Some(w.spec_target())),
        DistroVariants::spec_from_target(t) is None ==> spec_target_supported(v, Some(t)),
        spec_target_supported(v, None),
        t != SupportedTarget::Nix && DistroVariants::spec_from_target(t) == Some(w) ==> (spec_target_supported(v, Some(t)) <==> v == Some(w)),
        spec_target_supported(v, Some(SupportedTarget::Nix)),
        spec_target_supported(v, Some(SupportedTarget::Flatpak)),
        spec_target_supported(v, Some(SupportedTarget::Snap)),
        spec_target_supported(v, Some(SupportedTarget::Homebrew)),
        spec_target_supported(v, Some(SupportedTarget::Npm)),
        spec_target_supported(v, Some(SupportedTarget::Script)),
        spec_target_supported(v, Some(SupportedTarget::Ubuntu)) <==> v == Some(DistroVariants::Ubuntu),
        spec_target_supported(v, Some(SupportedTarget::Debian)) <==> v == Some(DistroVariants::Debian),
        spec_target_supported(v, Some(SupportedTarget::Arch)) <==> v == Some(DistroVariants::Arch),
        spec_target_supported(v, Some(SupportedTarget::Fedora)) <==> v == Some(DistroVariants::Fedora),
        spec_target_supported(v, Some(SupportedTarget::OpenSUSE)) <==> v == Some(DistroVariants::OpenSUSE),
{
}

/// The AUR helper found on a host: `yay` first, then `paru`, then the plain
/// `pacman` and `makepkg` pair.
pub open spec fn spec_aur_helper(probe: HostProbe) -> Option<Seq<char>> {
    if probe.has_yay {
        Some("yay"@)
    } else if probe.has_paru {
        Some("paru"@)
    } else if probe.has_pacman && probe.has_makepkg {
        Some("base-aur"@)
    } else {
        None
    }
}

/// The AUR helper found on a host is `yay` when it is there, else `paru`
/// when it is there, else `base-aur` when both `pacman` and `makepkg` are
/// there, and none otherwise.
pub proof fn lemma_aur_helper_order(probe: HostProbe)
    ensures
        probe.has_yay ==> spec_aur_helper(probe) == Some("yay"@),
        !probe.has_yay && probe.has_paru ==> spec_aur_helper(probe) == Some("paru"@),
        !probe.has_yay && !probe.has_paru && probe.has_pacman && probe.has_makepkg ==> spec_aur_helper(probe)
            == Some("base-aur"@),
        !probe.has_yay && !probe.has_paru && !(probe.has_pacman && probe.has_makepkg) ==> spec_aur_helper(probe)
            is None,
{
}

/// The family of a distribution, from its `ID` and whether it is NixOS.
pub open spec fn spec_classify(id: Seq<char>, is_nixos: bool) -> Option<DistroVariants> {
    if has_infix(id, "ubuntu"@) || has_infix(id, "linuxmint"@) || has_infix(id, "pop"@) {
        Some(DistroVariants::Ubuntu)
    } else if has_infix(id, "debian"@) || has_infix(id, "raspbian"@) || has_infix(id, "devuan"@)
        || has_infix(id, "kali"@) {
        Some(DistroVariants::Debian)
    } else if has_infix(id, "arch"@) || has_infix(id, "manjaro"@) || has_infix(id, "endeavouros"@) {
        Some(DistroVariants::Arch)
    } else if has_infix(id, "fedora"@) {
        Some(DistroVariants::Fedora)
    } else if has_infix(id, "opensuse"@) {
        Some(DistroVariants::OpenSUSE)
    } else if is_nixos {
        Some(DistroVariants::NixOS)
    } else {
        None
    }
}

/// The family of a distribution is that of the first group of markers its
/// `ID` contains, anywhere in it: `ubuntu`, `linuxmint`, `pop` (Ubuntu);
/// `debian`, `raspbian`, `devuan`, `kali` (Debian); `arch`, `manjaro`,
/// `endeavouros` (Arch); `fedora`; `opensuse`. An `ID` with no marker is
/// NixOS on NixOS, and of no known family elsewhere.
pub proof fn lemma_classify_markers(id: Seq<char>, is_nixos: bool, m: Seq<char>)
    ensures
        ({
            let ubuntu = has_infix(id, "ubuntu"@) || has_infix(id, "linuxmint"@) || has_infix(id, "pop"@);
            let debian = has_infix(id, "debian"@) || has_infix(id, "raspbian"@) || has_infix(id, "devuan"@)
                || has_infix(id, "kali"@);
            let arch = has_infix(id, "arch"@) || has_infix(id, "manjaro"@) || has_infix(id, "endeavouros"@);
            let fedora = has_infix(id, "fedora"@);
            let opensuse = has_infix(id, "opensuse"@);
            &&& (m == "ubuntu"@ || m == "linuxmint"@ || m == "pop"@) && has_infix(id, m)
                ==> spec_classify(id, is_nixos) == Some(DistroVariants::Ubuntu)
            &&& !ubuntu && (m == "debian"@ || m == "raspbian"@ || m == "devuan"@ || m == "kali"@) && has_infix(id, m)
                ==> spec_classify(id, is_nixos) == Some(DistroVariants::Debian)
            &&& !ubuntu && !debian && (m == "arch"@ || m == "manjaro"@ || m == "endeavouros"@) && has_infix(id, m)
                ==> spec_classify(id, is_nixos) == Some(DistroVariants::Arch)
            &&& !ubuntu && !debian && !arch && has_infix(id, "fedora"@)
                ==> spec_classify(id, is_nixos) == Some(DistroVariants::Fedora)
            &&& !ubuntu && !debian && !arch && !fedora && has_infix(id, "opensuse"@)
                ==> spec_classify(id, is_nixos) == Some(DistroVariants::OpenSUSE)
            &&& !ubuntu && !debian && !arch && !fedora && !opensuse
                ==> spec_classify(id, is_nixos) == (if is_nixos { Some(DistroVariants::NixOS) } else { None })
        }),
{
}

/// `s` cut at every `c`: the pieces between the separators, in order. There
/// is always one piece more than there are separators.
pub open spec fn split_on(s: Seq<char>, c: char) -> Seq<Seq<char>>
    decreases s.len(),
{
    if s.len() == 0 {
        seq![Seq::empty()]
    } else {
        let init = split_on(s.drop_last(), c);
        if s.last() == c {
            init.push(Seq::empty())
        } else {
            init.update(init.len() - 1, init.last().push(s.last()))
        }
    }
}

/// One line of an os-release file as a key and a value: blank lines and
/// comments give nothing, nor do lines without `=`; the key is trimmed, the
/// value is unquoted and trimmed.
pub open spec fn parse_line(line: Seq<char>) -> Option<(Seq<char>, Seq<char>)> {
    let t = trimmed(line);
    if t.len() == 0 || t[0] == '#' {
        None
    } else {
        match split_once(t, '=') {
            Some((k, v)) => Some((trimmed(k), trimmed(unquoted(v)))),
            None => None,
        }
    }
}

/// The entries of the lines, in order.
pub open spec fn parse_lines(lines: Seq<Seq<char>>) -> Seq<(Seq<char>, Seq<char>)>
    decreases lines.len(),
{
    if lines.len() == 0 {
        Seq::empty()
    } else {
        let rest = parse_lines(lines.drop_last());
        match parse_line(lines.last()) {
            Some(e) => rest.push(e),
            None => rest,
        }
    }
}

/// The entries of an os-release text, in the order of its lines.
pub open spec fn os_release_entries(text: Seq<char>) -> Seq<(Seq<char>, Seq<char>)> {
    parse_lines(split_on(text, '\n'))
}

/// The value of the last entry with `key`: a later line overrides an earlier one.
pub open spec fn lookup_last(entries: Seq<(Seq<char>, Seq<char>)>, key: Seq<char>) -> Option<Seq<char>>
    decreases entries.len(),
{
    if entries.len() == 0 {
        None
    } else if entries.last().0 == key {
        Some(entries.last().1)
    } else {
        lookup_last(entries.drop_last(), key)
    }
}

/// The character sequences of a list of key and value strings.
pub open spec fn entry_views(v: Seq<(String, String)>) -> Seq<(Seq<char>, Seq<char>)> {
    Seq::new(v.len(), |i: int| (v[i].0@, v[i].1@))
}

/// The value for `key`, or `default` when there is none.
pub open spec fn value_or(entries: Seq<(Seq<char>, Seq<char>)>, key: Seq<char>, default: Seq<char>) -> Seq<char> {
    match lookup_last(entries, key) {
        Some(v) => v,
        None => default,
    }
}

/// The facts that a probe and an os-release text give of the host.
pub open spec fn spec_fetched(text: Seq<char>, probe: HostProbe) -> (Seq<char>, Seq<char>, Seq<char>, Option<DistroVariants>) {
    let entries = os_release_entries(text);
    let name = value_or(entries, "PRETTY_NAME"@, "Unknown"@);
    let id = value_or(entries, "ID"@, "unknown"@);
    let version = value_or(entries, "VERSION_ID"@, "Unknown"@);
    let is_nixos = has_infix(id, "nixos"@) || has_infix(lowercase(name), "nixos"@) || probe.nixos_markers;
    (name, id, version, spec_classify(id, is_nixos))
}

proof fn lemma_split_on_step(s: Seq<char>, c: char, i: int)
    requires
        0 <= i < s.len(),
    ensures
        split_on(s.take(i + 1), c) == ({
            let init = split_on(s.take(i), c);
            if s[i] == c {
                init.push(Seq::empty())
            } else {
                init.update(init.len() - 1, init.last().push(s[i]))
            }
        }),
{
    assert(s.take(i + 1).drop_last() =~= s.take(i));
}

/// Cuts `text` into its lines: the pieces between newline characters.
pub fn split_lines(text: &str) -> (res: Vec<String>)
    ensures
        crate::text::views(res@) == split_on(text@, '\n'),
{
    let n = text.unicode_len();
    let mut lines: Vec<String> = Vec::new();
    let mut start: usize = 0;
    let mut i: usize = 0;
    assert(text@.take(0) =~= Seq::<char>::empty());
    while i < n
        invariant
            n == text@.len(),
            start <= i <= n,
            crate::text::views(lines@).push(text@.subrange(start as int, i as int)) == split_on(
                text@.take(i as int),
                '\n',
            ),
        decreases n - i,
    {
        proof {
            lemma_split_on_step(text@, '\n', i as int);
        }
        let ghost before = crate::text::views(lines@).push(text@.subrange(start as int, i as int));
        if text.get_char(i) == '\n' {
            let piece = text.substring_char(start, i).to_owned();
            let ghost old_lines = lines@;
            lines.push(piece);
            assert(crate::text::views(lines@) =~= crate::text::views(old_lines).push(
                text@.subrange(start as int, i as int),
            ));
            start = i + 1;
            assert(text@.subrange(start as int, i + 1) =~= Seq::<char>::empty());
            assert(crate::text::views(lines@).push(text@.subrange(start as int, i + 1)) =~= before.push(
                Seq::empty(),
            ));
        } else {
            assert(text@.subrange(start as int, i + 1) =~= text@.subrange(start as int, i as int).push(text@[i as int]));
            assert(crate::text::views(lines@).push(text@.subrange(start as int, i + 1)) =~= before.update(
                before.len() - 1,
                before.last().push(text@[i as int]),
            ));
        }
        i = i + 1;
    }
    let piece = text.substring_char(start, n).to_owned();
    let ghost old_lines = lines@;
    lines.push(piece);
    assert(crate::text::views(lines@) =~= crate::text::views(old_lines).push(
        text@.subrange(start as int, n as int),
    ));
    assert(text@.take(n as int) =~= text@);
    assert(crate::text::views(lines@) =~= split_on(text@, '\n'));
    lines
}

/// Parses one line of an os-release file.
pub fn parse_os_release_line(line: &str) -> (res: Option<(String, String)>)
    ensures
        match parse_line(line@) {
            Some((k, v)) => res matches Some((a, b)) && a@ == k && b@ == v,
            None => res is None,
        },
{
    let t = trim(line);
    if t.unicode_len() == 0 || t.get_char(0) == '#' {
        return None;
    }
    match split_once_exec(t, '=') {
        Some((k, v)) => {
            let key = trim(k).to_owned();
            let value = trim(trim_quotes(v)).to_owned();
            Some((key, value))
        },
        None => None,
    }
}

/// Parses an os-release text into its entries, in the order of its lines.
pub fn parse_os_release(text: &str) -> (res: Vec<(String, String)>)
    ensures
        entry_views(res@) == os_release_entries(text@),
{
    let lines = split_lines(text);
    let ghost ls = crate::text::views(lines@);
    let mut entries: Vec<(String, String)> = Vec::new();
    let mut i: usize = 0;
    assert(ls.take(0) =~= Seq::<Seq<char>>::empty());
    while i < lines.len()
        invariant
            i <= lines.len(),
            ls == crate::text::views(lines@),
            entry_views(entries@) == parse_lines(ls.take(i as int)),
        decreases lines.len() - i,
    {
        assert(ls.take(i + 1).drop_last() =~= ls.take(i as int));
        assert(ls.take(i + 1).last() == lines@[i as int]@);
        match parse_os_release_line(lines[i].as_str()) {
            Some(e) => {
                entries.push(e);
                assert(entry_views(entries@) =~= parse_lines(ls.take(i as int)).push(
                    parse_line(lines@[i as int]@).unwrap(),
                ));
            },
            None => {},
        }
        i = i + 1;
    }
    assert(ls.take(lines.len() as int) =~= ls);
    entries
}

/// The value of the last entry with `key`, if any.
pub fn lookup_entry(entries: &Vec<(String, String)>, key: &str) -> (res: Option<String>)
    ensures
        match lookup_last(entry_views(entries@), key@) {
            Some(v) => res matches Some(r) && r@ == v,
            None => res is None,
        },
{
    let ghost es = entry_views(entries@);
    let mut i: usize = entries.len();
    assert(es.take(i as int) =~= es);
    while i > 0
        invariant
            i <= entries.len(),
            es == entry_views(entries@),
            lookup_last(es, key@) == lookup_last(es.take(i as int), key@),
        decreases i,
    {
        assert(es.take(i as int).drop_last() =~= es.take(i - 1));
        if str_eq(entries[i - 1].0.as_str(), key) {
            return Some(entries[i - 1].1.clone());
        }
        i = i - 1;
    }
    None
}

fn lookup_or(entries: &Vec<(String, String)>, key: &str, default: &str) -> (res: String)
    ensures
        res@ == value_or(entry_views(entries@), key@, default@),
{
    match lookup_entry(entries, key) {
        Some(v) => v,
        None => default.to_owned(),
    }
}

/// The family of a distribution, from its `ID` and whether it is NixOS.
pub fn classify_variant(id: &str, is_nixos: bool) -> (res: Option<DistroVariants>)
    ensures
        res == spec_classify(id@, is_nixos),
{
    if contains(id, "ubuntu") || contains(id, "linuxmint") || contains(id, "pop") {
        Some(DistroVariants::Ubuntu)
    } else if contains(id, "debian") || contains(id, "raspbian") || contains(id, "devuan")
        || contains(id, "kali") {
        Some(DistroVariants::Debian)
    } else if contains(id, "arch") || contains(id, "manjaro") || contains(id, "endeavouros") {
        Some(DistroVariants::Arch)
    } else if contains(id, "fedora") {
        Some(DistroVariants::Fedora)
    } else if contains(id, "opensuse") {
        Some(DistroVariants::OpenSUSE)
    } else if is_nixos {
        Some(DistroVariants::NixOS)
    } else {
        None
    }
}

impl DistroInfo {
    /// A host of which nothing is known yet.
    pub fn new() -> (res: Self)
        ensures
            res.name@ == Seq::<char>::empty(),
            res.id@ == Seq::<char>::empty(),
            res.version@ == Seq::<char>::empty(),
            res.pretty_name@ == Seq::<char>::empty(),
            res.variant is None,
            !res.has_nix && !res.has_flatpak && !res.has_snap && !res.has_homebrew,
            !res.has_npm && !res.has_curl && !res.has_aur,
            res.aur_helper is None,
    {
        DistroInfo {
            name: String::new(),
            id: String::new(),
            version: String::new(),
            pretty_name: String::new(),
            variant: None,
            has_nix: false,
            has_flatpak: false,
            has_snap: false,
            has_homebrew: false,
            has_npm: false,
            has_curl: false,
            has_aur: false,
            aur_helper: None,
        }
    }

    /// The AUR helper a probe found: `yay`, then `paru`, then `base-aur`
    /// when `pacman` and `makepkg` are both there.
    pub fn detect_aur_helper(probe: &HostProbe) -> (res: Option<String>)
        ensures
            match spec_aur_helper(*probe) {
                Some(h) => res matches Some(r) && r@ == h,
                None => res is None,
            },
    {
        if probe.has_yay {
            Some(String::from_str("yay"))
        } else if probe.has_paru {
            Some(String::from_str("paru"))
        } else if probe.has_pacman && probe.has_makepkg {
            Some(String::from_str("base-aur"))
        } else {
            None
        }
    }

    /// Replaces what is known of the host with what an os-release text and
    /// a probe of the host tell: the `PRETTY_NAME`, `ID` and `VERSION_ID`
    /// entries (`Unknown`, `unknown`, `Unknown` where missing), the family,
    /// the package tools and the AUR helper.
    pub fn fetch(&mut self, os_release: &str, probe: &HostProbe)
        ensures
            ({
                let (name, id, version, variant) = spec_fetched(os_release@, *probe);
                &&& final(self).name@ == name
                &&& final(self).pretty_name@ == name
                &&& final(self).id@ == id
                &&& final(self).version@ == version
                &&& final(self).variant == variant
            }),
            final(self).has_nix == probe.has_nix,
            final(self).has_flatpak == probe.has_flatpak,
            final(self).has_snap == probe.has_snap,
            final(self).has_homebrew == probe.has_homebrew,
            final(self).has_npm == probe.has_npm,
            final(self).has_curl == probe.has_curl,
            final(self).has_aur == spec_aur_helper(*probe) is Some,
            match spec_aur_helper(*probe) {
                Some(h) => final(self).aur_helper matches Some(r) && r@ == h,
                None => final(self).aur_helper is None,
            },
    {
        let entries = parse_os_release(os_release);
        let name = lookup_or(&entries, "PRETTY_NAME", "Unknown");
        let id = lookup_or(&entries, "ID", "unknown");
        let version = lookup_or(&entries, "VERSION_ID", "Unknown");
        let aur_info = DistroInfo::detect_aur_helper(probe);
        let is_nixos = contains(id.as_str(), "nixos") || contains(
            to_lowercase(name.as_str()).as_str(),
            "nixos",
        ) || probe.nixos_markers;
        let variant = classify_variant(id.as_str(), is_nixos);
        let has_aur = aur_info.is_some();
        *self = DistroInfo {
            pretty_name: name.clone(),
            id: id,
            name: name,
            version: version,
            variant: variant,
            has_nix: probe.has_nix,
            has_flatpak: probe.has_flatpak,
            has_snap: probe.has_snap,
            has_homebrew: probe.has_homebrew,
            has_npm: probe.has_npm,
            has_curl: probe.has_curl,
            has_aur: has_aur,
            aur_helper: aur_info,
        };
    }

    /// Whether a package aimed at `target_id` can be installed on this host.
    pub fn is_target_supported(&self, target_id: &Option<SupportedTarget>) -> (res: bool)
        ensures
            res == spec_target_supported(self.variant, *target_id),
    {
        match target_id {
            Some(target) => match target {
                SupportedTarget::Ubuntu => self.variant == Some(DistroVariants::Ubuntu),
                SupportedTarget::Debian => self.variant == Some(DistroVariants::Debian),
                SupportedTarget::Arch => self.variant == Some(DistroVariants::Arch),
                SupportedTarget::Fedora => self.variant == Some(DistroVariants::Fedora),
                SupportedTarget::OpenSUSE => self.variant == Some(DistroVariants::OpenSUSE),
                _ => true,
            },
            None => true,
        }
    }
}

} // verus!
