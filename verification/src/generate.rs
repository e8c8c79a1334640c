//! Sorting requested packages by target and turning them into one shell
//! command (and, for Nix, configuration lines).
use vstd::prelude::*;
use crate::distro::{DistroInfo, DistroVariants, spec_target_supported};
use crate::package::SupportedTarget;
use crate::probe::{
    aur_check, flathub_check, is_aur_package, is_flathub_verified, is_snap_verified,
    is_unfree_nix_package, snap_check, unfree_check,
};
use crate::registry::{AppData, KnownPackages, PackageDef, VerifiedApps, resolve_package};
use crate::target_map::{TargetMap, distinct_keys, inserted, keys_of, list_view, lookup};
use crate::text::{
    has_infix, has_prefix, join, join_exec, join_prefixed, lemma_infix_after, lemma_infix_before,
    lemma_infix_self, lemma_infix_trans, lemma_join_has_part, lemma_join_prefixed_has_part,
    prefix_each, remove_all, remove_all_exec, starts_with, views,
};

verus! {

// ---------------------------------------------------------------------
// The commands of each package manager
// ---------------------------------------------------------------------

/// The directory in which an AUR helper is built.
pub open spec fn aur_build_dir() -> Seq<char> {
    "/tmp/tuxmate-aur-build"@
}

pub open spec fn apt_command(p: Seq<Seq<char>>) -> Seq<char> {
    "sudo apt update && sudo apt install -y "@ + join(p, " "@)
}

pub open spec fn pacman_command(p: Seq<Seq<char>>) -> Seq<char> {
    "sudo pacman -S --needed --noconfirm "@ + join(p, " "@)
}

pub open spec fn aur_command(p: Seq<Seq<char>>, helper: Seq<char>) -> Seq<char> {
    helper + " -S --needed --noconfirm "@ + join(p, " "@)
}

pub open spec fn aur_helper_install_command(helper: Seq<char>) -> Seq<char> {
    "mkdir -p "@ + aur_build_dir() + " && cd "@ + aur_build_dir()
        + " && git clone https://aur.archlinux.org/"@ + helper + ".git && cd "@ + helper
        + " && makepkg -si --noconfirm && cd .. && rm -rf "@ + aur_build_dir()
}

pub open spec fn dnf_command(p: Seq<Seq<char>>) -> Seq<char> {
    "sudo dnf install -y "@ + join(p, " "@)
}

pub open spec fn zypper_command(p: Seq<Seq<char>>) -> Seq<char> {
    "sudo zypper install -y "@ + join(p, " "@)
}

pub open spec fn nix_command(p: Seq<Seq<char>>) -> Seq<char> {
    "sudo nix-env -iA "@ + join(prefix_each(p, "nixpkgs."@), " "@)
}

/// The lines to add to `/etc/nixos/configuration.nix`; with unfree packages
/// they also allow unfree packages.
pub open spec fn nix_config(p: Seq<Seq<char>>, with_unfree: bool) -> Seq<char> {
    if with_unfree {
        "# In /etc/nixos/configuration.nix\n\nnixpkgs.config.allowUnfree = true; # Allow installation of unfree packages, add this line to your NixOS configuration, if not already present.\n\nenvironment.systemPackages = with pkgs; [\n    "@
            + join(p, "\n    "@) + "\n];"@
    } else {
        "# In /etc/nixos/configuration.nix\n\nenvironment.systemPackages = with pkgs; [\n    "@ + join(
            p,
            "\n    "@,
        ) + "\n];"@
    }
}

pub open spec fn flatpak_command(p: Seq<Seq<char>>) -> Seq<char> {
    "flatpak remote-add --if-not-exists flathub https://dl.flathub.org/repo/flathub.flatpakrepo && flatpak install flathub -y "@
        + join(p, " "@)
}

/// One `snap install` per package, chained with `&&`.
pub open spec fn snap_command(p: Seq<Seq<char>>) -> Seq<char> {
    join(prefix_each(p, "sudo snap install "@), " && "@)
}

/// Homebrew handles split into formulae and casks (handles that begin with
/// `--cask`, with every `--cask ` taken out), each in its original order.
pub open spec fn brew_split(p: Seq<Seq<char>>) -> (Seq<Seq<char>>, Seq<Seq<char>>)
    decreases p.len(),
{
    if p.len() == 0 {
        (Seq::empty(), Seq::empty())
    } else {
        let (f, c) = brew_split(p.drop_last());
        if has_prefix(p.last(), "--cask"@) {
            (f, c.push(remove_all(p.last(), "--cask "@)))
        } else {
            (f.push(p.last()), c)
        }
    }
}

/// One `brew install` per formula and then one `brew install --cask` per
/// cask, all chained with `&&`.
pub open spec fn homebrew_command(p: Seq<Seq<char>>) -> Seq<char> {
    let (f, c) = brew_split(p);
    join(prefix_each(f, "brew install "@) + prefix_each(c, "brew install --cask "@), " && "@)
}

pub open spec fn npm_command(p: Seq<Seq<char>>) -> Seq<char> {
    "npm install -g "@ + join(p, " "@)
}

pub open spec fn script_command(p: Seq<Seq<char>>) -> Seq<char> {
    join(p, " && "@)
}

/// The handles of `p` for which `keep` holds, in order.
pub open spec fn keep(p: Seq<Seq<char>>, pred: spec_fn(Seq<char>) -> bool) -> Seq<Seq<char>>
    decreases p.len(),
{
    if p.len() == 0 {
        Seq::empty()
    } else if pred(p.last()) {
        keep(p.drop_last(), pred).push(p.last())
    } else {
        keep(p.drop_last(), pred)
    }
}

/// The handles stored under a target, or none.
pub open spec fn handles_for(e: Seq<(SupportedTarget, Seq<Seq<char>>)>, t: SupportedTarget) -> Seq<Seq<char>> {
    match lookup(e, t) {
        Some(l) => l,
        None => Seq::empty(),
    }
}

// ---------------------------------------------------------------------
// Outcomes of the steps of building a command
// ---------------------------------------------------------------------

/// What became of a requested package when it was sorted.
#[derive(Debug)]
pub enum SortOutcome {
    /// It names a target that this host cannot use; it was not added.
    Unsupported,
    /// Its handle was added under this target.
    Added(SupportedTarget),
    /// The record has no handle for the target; these target identifiers
    /// could be chosen instead.
    NeedsAlternative(Vec<String>),
    /// No registry record, or no target to resolve it for.
    Unresolved,
}

/// What the AUR packages ask of the host.
#[derive(Debug, Clone, PartialEq, Eq)]
pub enum AurPlan {
    /// No AUR package is to be installed on an Arch host.
    NotNeeded,
    /// This helper was found on the host and will be used.
    Detected(String),
    /// No helper was found; one must be chosen and installed.
    NeedsInstall,
}

/// Why the installation cannot go ahead.
#[derive(Debug, Clone, Copy, PartialEq, Eq, Structural)]
pub enum DependencyError {
    /// An AUR helper is to be installed, but none was chosen.
    NoPreferredAurHelper,
    /// AUR packages need a helper, and installing one was declined.
    AurHelperDeclined,
    MissingNix,
    MissingFlatpak,
    MissingSnap,
    MissingHomebrew,
    MissingNpm,
    MissingCurl,
}

/// The command cannot be composed.
#[derive(Debug, Clone, Copy, PartialEq, Eq, Structural)]
pub enum ComposeError {
    /// AUR packages are to be installed, but no AUR helper was chosen.
    NoPreferredAurHelper,
}

/// What one target contributes when the command is composed.
pub enum Part {
    Command(Seq<char>),
    Config(Seq<char>),
    Fail,
}

/// Builds the installation command for a set of requested packages.
pub struct CommandGenerator {
    host: DistroInfo,
    packages: TargetMap<Vec<String>>,
    aur_packages: Vec<String>,
    install_aur_helper: bool,
    preferred_aur_helper: Option<String>,
    nix_unfree_packages: Vec<String>,
    flathub_unverified_packages: Vec<String>,
    snap_unverified_packages: Vec<String>,
    generated_command: String,
    generated_config: String,
    get_nix_config: bool,
}

/// Copies a list of strings.
pub fn clone_strings(v: &Vec<String>) -> (res: Vec<String>)
    ensures
        views(res@) == views(v@),
{
    let mut res: Vec<String> = Vec::new();
    let mut i: usize = 0;
    while i < v.len()
        invariant
            i <= v.len(),
            views(res@) == views(v@).take(i as int),
        decreases v.len() - i,
    {
        let c = v[i].clone();
        let ghost old_res = res@;
        res.push(c);
        assert(views(res@) =~= views(old_res).push(c@));
        assert(views(res@) =~= views(v@).take(i + 1));
        i = i + 1;
    }
    assert(views(v@).take(i as int) =~= views(v@));
    res
}

/// Appends to `out` each part with `prefix` put in front of it, in order.
fn push_prefixed(out: &mut Vec<String>, parts: &Vec<String>, prefix: &str)
    ensures
        views(final(out)@) == views(old(out)@) + prefix_each(views(parts@), prefix@),
{
    let ghost start = views(out@);
    let mut i: usize = 0;
    assert(start + prefix_each(views(parts@).take(0), prefix@) =~= start);
    while i < parts.len()
        invariant
            i <= parts.len(),
            views(out@) == start + prefix_each(views(parts@).take(i as int), prefix@),
        decreases parts.len() - i,
    {
        let c = String::from_str(prefix).concat(parts[i].as_str());
        let ghost o = out@;
        out.push(c);
        assert(views(out@) =~= views(o).push(c@));
        assert(prefix_each(views(parts@).take(i + 1), prefix@) =~= prefix_each(views(parts@).take(i as int), prefix@).push(
            prefix@ + parts@[i as int]@,
        ));
        i = i + 1;
    }
    assert(views(parts@).take(i as int) =~= views(parts@));
}

fn opt_clone(o: &Option<String>) -> (res: Option<String>)
    ensures
        res == *o,
{
    match o {
        Some(s) => Some(s.clone()),
        None => None,
    }
}

impl CommandGenerator {
    // -----------------------------------------------------------------
    // The state, as seen by contracts
    // -----------------------------------------------------------------

    pub closed spec fn spec_host(&self) -> DistroInfo {
        self.host
    }

    /// The handles to install under each target, in the order the targets
    /// were first added.
    pub closed spec fn spec_packages(&self) -> Seq<(SupportedTarget, Seq<Seq<char>>)> {
        Seq::new(
            self.packages.spec_entries().len(),
            |i: int| (self.packages.spec_entries()[i].0, views(self.packages.spec_entries()[i].1@)),
        )
    }

    pub closed spec fn spec_aur_packages(&self) -> Seq<Seq<char>> {
        views(self.aur_packages@)
    }

    pub closed spec fn spec_install_aur_helper(&self) -> bool {
        self.install_aur_helper
    }

    pub closed spec fn spec_preferred_aur_helper(&self) -> Option<Seq<char>> {
        match self.preferred_aur_helper {
            Some(h) => Some(h@),
            None => None,
        }
    }

    pub closed spec fn spec_nix_unfree(&self) -> Seq<Seq<char>> {
        views(self.nix_unfree_packages@)
    }

    pub closed spec fn spec_flathub_unverified(&self) -> Seq<Seq<char>> {
        views(self.flathub_unverified_packages@)
    }

    pub closed spec fn spec_snap_unverified(&self) -> Seq<Seq<char>> {
        views(self.snap_unverified_packages@)
    }

    pub closed spec fn spec_command(&self) -> Seq<char> {
        self.generated_command@
    }

    pub closed spec fn spec_config(&self) -> Seq<char> {
        self.generated_config@
    }

    pub closed spec fn spec_get_nix_config(&self) -> bool {
        self.get_nix_config
    }

    /// Everything but the sorted packages is as in `other`.
    pub open spec fn same_but_packages(&self, other: &Self) -> bool {
        &&& self.spec_host() == other.spec_host()
        &&& self.spec_aur_packages() == other.spec_aur_packages()
        &&& self.spec_install_aur_helper() == other.spec_install_aur_helper()
        &&& self.spec_preferred_aur_helper() == other.spec_preferred_aur_helper()
        &&& self.spec_nix_unfree() == other.spec_nix_unfree()
        &&& self.spec_flathub_unverified() == other.spec_flathub_unverified()
        &&& self.spec_snap_unverified() == other.spec_snap_unverified()
        &&& self.spec_command() == other.spec_command()
        &&& self.spec_config() == other.spec_config()
        &&& self.spec_get_nix_config() == other.spec_get_nix_config()
    }

    proof fn lemma_packages_view(&self)
        ensures
            self.spec_packages() == ({
                let lv = list_view(self.packages.spec_entries());
                Seq::new(lv.len(), |i: int| (lv[i].0, views(lv[i].1)))
            }),
    {
        let lv = list_view(self.packages.spec_entries());
        assert(self.spec_packages() =~= Seq::new(lv.len(), |i: int| (lv[i].0, views(lv[i].1))));
    }

    /// The sorted packages store each target once, as their map does.
    proof fn lemma_packages_distinct(&self)
        requires
            distinct_keys(self.packages.spec_entries()),
        ensures
            distinct_keys(self.spec_packages()),
    {
    }

    // -----------------------------------------------------------------
    // Construction and sorting
    // -----------------------------------------------------------------

    /// A generator for a host, with nothing sorted yet.
    pub fn new(host: DistroInfo) -> (res: Self)
        ensures
            res.spec_host() == host,
            res.spec_packages() == Seq::<(SupportedTarget, Seq<Seq<char>>)>::empty(),
            res.spec_aur_packages() == Seq::<Seq<char>>::empty(),
            !res.spec_install_aur_helper(),
            res.spec_preferred_aur_helper() is None,
            res.spec_nix_unfree() == Seq::<Seq<char>>::empty(),
            res.spec_flathub_unverified() == Seq::<Seq<char>>::empty(),
            res.spec_snap_unverified() == Seq::<Seq<char>>::empty(),
            res.spec_command() == Seq::<char>::empty(),
            res.spec_config() == Seq::<char>::empty(),
            !res.spec_get_nix_config(),
            distinct_keys(res.spec_packages()),
    {
        let res = CommandGenerator {
            host,
            packages: TargetMap::new(),
            aur_packages: Vec::new(),
            install_aur_helper: false,
            preferred_aur_helper: None,
            nix_unfree_packages: Vec::new(),
            flathub_unverified_packages: Vec::new(),
            snap_unverified_packages: Vec::new(),
            generated_command: String::new(),
            generated_config: String::new(),
            get_nix_config: false,
        };
        assert(res.spec_packages() =~= Seq::<(SupportedTarget, Seq<Seq<char>>)>::empty());
        assert(views(res.aur_packages@) =~= Seq::<Seq<char>>::empty());
        assert(views(res.nix_unfree_packages@) =~= Seq::<Seq<char>>::empty());
        assert(views(res.flathub_unverified_packages@) =~= Seq::<Seq<char>>::empty());
        assert(views(res.snap_unverified_packages@) =~= Seq::<Seq<char>>::empty());
        res
    }

    /// Appends `handle` to the handles stored under `target`.
    fn add_handle(&mut self, target: SupportedTarget, handle: String)
        ensures
            final(self).spec_packages() == inserted(
                old(self).spec_packages(),
                target,
                handles_for(old(self).spec_packages(), target).push(handle@),
            ),
            final(self).same_but_packages(&*old(self)),
            distinct_keys(final(self).spec_packages()),
    {
        let ghost old_lv = list_view(self.packages.spec_entries());
        self.packages.push_to(target, handle);
        proof {
            use_type_invariant(&self.packages);
            self.lemma_packages_distinct();
            let new_lv = list_view(self.packages.spec_entries());
            old(self).lemma_packages_view();
            self.lemma_packages_view();
            lemma_views_inserted(old_lv, target, handle);
        }
    }

    /// Sorts one requested package: a package for a target that this host
    /// cannot use is left out; otherwise it is resolved against its registry
    /// record (`None` when none was found) and its handle stored under the
    /// target it names, or else under the host family's own target.
    pub fn sort_package(&mut self, package: &PackageDef, app_data: Option<&AppData>) -> (res: SortOutcome)
        ensures
            final(self).same_but_packages(&*old(self)),
            !spec_target_supported(old(self).spec_host().variant, package.target_id) ==> (res is Unsupported
                && final(self).spec_packages() == old(self).spec_packages()),
            res matches SortOutcome::Added(t) ==> final(self).spec_packages() == inserted(
                old(self).spec_packages(),
                t,
                handles_for(old(self).spec_packages(), t).push(
                    lookup(app_data.unwrap().targets.spec_entries(), t).unwrap()@,
                ),
            ) && crate::registry::spec_resolve_target(package.target_id, old(self).spec_host().variant) == Some(t),
            spec_target_supported(old(self).spec_host().variant, package.target_id) ==> match app_data {
                None => res is Unresolved,
                Some(app) => match crate::registry::spec_resolve_target(package.target_id, old(self).spec_host().variant) {
                    None => res is Unresolved,
                    Some(t) => match lookup(app.targets.spec_entries(), t) {
                        Some(_) => res == SortOutcome::Added(t),
                        None => res matches SortOutcome::NeedsAlternative(v) && views(v@)
                            == crate::registry::supported_ids(
                            crate::target_map::keys_of(app.targets.spec_entries()),
                            old(self).spec_host().variant,
                        ),
                    },
                },
            },
            !(res is Added) ==> final(self).spec_packages() == old(self).spec_packages(),
            distinct_keys(final(self).spec_packages()),
    {
        proof {
            use_type_invariant(&self.packages);
            self.lemma_packages_distinct();
        }
        if !self.host.is_target_supported(&package.target_id) {
            return SortOutcome::Unsupported;
        }
        match resolve_package(package, &self.host, app_data) {
            Ok(handle) => {
                let target = match package.target_id {
                    Some(t) => t,
                    None => match &self.host.variant {
                        Some(v) => v.to_target(),
                        None => {
                            return SortOutcome::Unresolved;
                        },
                    },
                };
                self.add_handle(target, handle);
                SortOutcome::Added(target)
            },
            Err(Some(options)) => SortOutcome::NeedsAlternative(options),
            Err(None) => SortOutcome::Unresolved,
        }
    }
}


impl CommandGenerator {
    // -----------------------------------------------------------------
    // The command of each package manager
    // -----------------------------------------------------------------

    /// `sudo apt update && sudo apt install -y` with the handles.
    pub fn generate_apt_command(&self, apt_packages: Vec<String>) -> (res: String)
        ensures
            res@ == apt_command(views(apt_packages@)),
    {
        String::from_str("sudo apt update && sudo apt install -y ").concat(join_exec(&apt_packages, " ").as_str())
    }

    /// `sudo pacman -S --needed --noconfirm` with the handles.
    pub fn generate_pacman_command(&self, pacman_packages: Vec<String>) -> (res: String)
        ensures
            res@ == pacman_command(views(pacman_packages@)),
    {
        String::from_str("sudo pacman -S --needed --noconfirm ").concat(join_exec(&pacman_packages, " ").as_str())
    }

    /// The AUR helper's `-S --needed --noconfirm` with the handles.
    pub fn generate_aur_command(&self, aur_packages: Vec<String>, aur_helper: String) -> (res: String)
        ensures
            res@ == aur_command(views(aur_packages@), aur_helper@),
    {
        aur_helper.concat(" -S --needed --noconfirm ").concat(join_exec(&aur_packages, " ").as_str())
    }

    /// Builds and installs an AUR helper from its AUR repository in a
    /// temporary directory, which is removed afterwards.
    pub fn generate_aur_helper_install_command(&self, aur_helper: String) -> (res: String)
        ensures
            res@ == aur_helper_install_command(aur_helper@),
    {
        let temp_dir = "/tmp/tuxmate-aur-build";
        String::from_str("mkdir -p ").concat(temp_dir).concat(" && cd ").concat(temp_dir).concat(
            " && git clone https://aur.archlinux.org/",
        ).concat(aur_helper.as_str()).concat(".git && cd ").concat(aur_helper.as_str()).concat(
            " && makepkg -si --noconfirm && cd .. && rm -rf ",
        ).concat(temp_dir)
    }

    /// `sudo dnf install -y` with the handles.
    pub fn generate_dnf_command(&self, dnf_packages: Vec<String>) -> (res: String)
        ensures
            res@ == dnf_command(views(dnf_packages@)),
    {
        String::from_str("sudo dnf install -y ").concat(join_exec(&dnf_packages, " ").as_str())
    }

    /// `sudo zypper install -y` with the handles.
    pub fn generate_zypper_command(&self, zypper_packages: Vec<String>) -> (res: String)
        ensures
            res@ == zypper_command(views(zypper_packages@)),
    {
        String::from_str("sudo zypper install -y ").concat(join_exec(&zypper_packages, " ").as_str())
    }

    /// `sudo nix-env -iA` with each handle as `nixpkgs.<handle>`.
    pub fn generate_nix_command(&self, nix_packages: Vec<String>) -> (res: String)
        ensures
            res@ == nix_command(views(nix_packages@)),
    {
        String::from_str("sudo nix-env -iA ").concat(join_prefixed(&nix_packages, "nixpkgs.", " ").as_str())
    }

    /// The `environment.systemPackages` lines for NixOS, allowing unfree
    /// packages when any unfree package was found.
    pub fn generate_nix_config(&self, nix_packages: Vec<String>) -> (res: String)
        ensures
            res@ == nix_config(views(nix_packages@), self.spec_nix_unfree().len() > 0),
    {
        let body = join_exec(&nix_packages, "\n    ");
        if self.nix_unfree_packages.len() > 0 {
            String::from_str(
                "# In /etc/nixos/configuration.nix\n\nnixpkgs.config.allowUnfree = true; # Allow installation of unfree packages, add this line to your NixOS configuration, if not already present.\n\nenvironment.systemPackages = with pkgs; [\n    ",
            ).concat(body.as_str()).concat("\n];")
        } else {
            String::from_str(
                "# In /etc/nixos/configuration.nix\n\nenvironment.systemPackages = with pkgs; [\n    ",
            ).concat(body.as_str()).concat("\n];")
        }
    }

    /// Adds the Flathub remote if needed and installs the handles from it.
    pub fn generate_flatpak_command(&self, flatpak_packages: Vec<String>) -> (res: String)
        ensures
            res@ == flatpak_command(views(flatpak_packages@)),
    {
        String::from_str(
            "flatpak remote-add --if-not-exists flathub https://dl.flathub.org/repo/flathub.flatpakrepo && flatpak install flathub -y ",
        ).concat(join_exec(&flatpak_packages, " ").as_str())
    }

    /// One `sudo snap install` per handle (so that each keeps its own
    /// options), chained with `&&`.
    pub fn generate_snap_command(&self, snap_packages: Vec<String>) -> (res: String)
        ensures
            res@ == snap_command(views(snap_packages@)),
    {
        join_prefixed(&snap_packages, "sudo snap install ", " && ")
    }

    /// `brew install` for each formula and `brew install --cask` for each
    /// cask (a handle that begins with `--cask`).
    pub fn generate_homebrew_command(&self, homebrew_packages: Vec<String>) -> (res: String)
        ensures
            res@ == homebrew_command(views(homebrew_packages@)),
    {
        let ghost p = views(homebrew_packages@);
        let mut formulae: Vec<String> = Vec::new();
        let mut casks: Vec<String> = Vec::new();
        let mut i: usize = 0;
        while i < homebrew_packages.len()
            invariant
                i <= homebrew_packages.len(),
                p == views(homebrew_packages@),
                (views(formulae@), views(casks@)) == brew_split(p.take(i as int)),
            decreases homebrew_packages.len() - i,
        {
            let h = homebrew_packages[i].as_str();
            assert(p.take(i + 1).drop_last() =~= p.take(i as int));
            assert(p.take(i + 1).last() == h@);
            if starts_with(h, "--cask") {
                proof {
                    reveal_strlit("--cask ");
                }
                let c = remove_all_exec(h, "--cask ");
                let ghost old_c = casks@;
                casks.push(c);
                assert(views(casks@) =~= views(old_c).push(c@));
            } else {
                let f = homebrew_packages[i].clone();
                let ghost old_f = formulae@;
                formulae.push(f);
                assert(views(formulae@) =~= views(old_f).push(f@));
            }
            i = i + 1;
        }
        assert(p.take(homebrew_packages.len() as int) =~= p);
        let mut calls: Vec<String> = Vec::new();
        push_prefixed(&mut calls, &formulae, "brew install ");
        push_prefixed(&mut calls, &casks, "brew install --cask ");
        assert(views(calls@) =~= prefix_each(views(formulae@), "brew install "@) + prefix_each(
            views(casks@),
            "brew install --cask "@,
        ));
        join_exec(&calls, " && ")
    }

    /// `npm install -g` with the handles.
    pub fn generate_npm_command(&self, npm_packages: Vec<String>) -> (res: String)
        ensures
            res@ == npm_command(views(npm_packages@)),
    {
        String::from_str("npm install -g ").concat(join_exec(&npm_packages, " ").as_str())
    }

    /// The script handles themselves, chained with `&&`.
    pub fn generate_script_command(&self, script_packages: Vec<String>) -> (res: String)
        ensures
            res@ == script_command(views(script_packages@)),
    {
        join_exec(&script_packages, " && ")
    }
}

impl CommandGenerator {
    /// The targets of the sorted packages, in order.
    pub open spec fn spec_targets(&self) -> Seq<SupportedTarget> {
        keys_of(self.spec_packages())
    }

    /// The commands to run before installing, or why it cannot go ahead.
    pub open spec fn spec_dependencies(&self) -> Result<Seq<Seq<char>>, DependencyError> {
        dependencies(
            self.spec_targets(),
            self.spec_host(),
            self.spec_aur_packages().len() > 0,
            self.spec_install_aur_helper(),
            self.spec_preferred_aur_helper(),
        )
    }

    /// The installation command pieces and Nix configuration, if no target fails.
    pub open spec fn spec_compose(&self) -> Option<(Seq<Seq<char>>, Seq<char>)> {
        compose(
            self.spec_packages(),
            self.spec_aur_packages(),
            self.spec_preferred_aur_helper(),
            self.spec_get_nix_config(),
            self.spec_nix_unfree().len() > 0,
        )
    }

    /// Whether the user is to choose between running the Nix commands and
    /// seeing configuration lines: on NixOS or with Nix installed, when no
    /// unfree package is requested.
    pub open spec fn spec_needs_nix_choice(&self) -> bool {
        (self.spec_host().variant == Some(DistroVariants::NixOS) || self.spec_host().has_nix)
            && self.spec_nix_unfree().len() == 0
    }

    /// Everything but the AUR helper settings is as in `other`.
    pub open spec fn same_but_aur_helper(&self, other: &Self) -> bool {
        &&& self.spec_host() == other.spec_host()
        &&& self.spec_packages() == other.spec_packages()
        &&& self.spec_aur_packages() == other.spec_aur_packages()
        &&& self.spec_nix_unfree() == other.spec_nix_unfree()
        &&& self.spec_flathub_unverified() == other.spec_flathub_unverified()
        &&& self.spec_snap_unverified() == other.spec_snap_unverified()
        &&& self.spec_command() == other.spec_command()
        &&& self.spec_config() == other.spec_config()
        &&& self.spec_get_nix_config() == other.spec_get_nix_config()
    }

    /// Sorts a package for a target chosen in place of the one it lacked: it
    /// is resolved for `target` and its handle stored under `target`. The
    /// answer is `false`, and nothing is stored, when there is no record or
    /// the record has no handle for `target`.
    pub fn sort_package_for(&mut self, package: &PackageDef, target: SupportedTarget, app_data: Option<&AppData>) -> (res: bool)
        ensures
            final(self).same_but_packages(&*old(self)),
            res == (app_data matches Some(app) && lookup(app.targets.spec_entries(), target) is Some),
            res ==> final(self).spec_packages() == inserted(
                old(self).spec_packages(),
                target,
                handles_for(old(self).spec_packages(), target).push(
                    lookup(app_data.unwrap().targets.spec_entries(), target).unwrap()@,
                ),
            ),
            !res ==> final(self).spec_packages() == old(self).spec_packages(),
            distinct_keys(final(self).spec_packages()),
    {
        proof {
            use_type_invariant(&self.packages);
            self.lemma_packages_distinct();
        }
        let retargeted = PackageDef { package_id: package.package_id.clone(), target_id: Some(target) };
        match resolve_package(&retargeted, &self.host, app_data) {
            Ok(handle) => {
                self.add_handle(target, handle);
                true
            },
            Err(_) => false,
        }
    }

    /// Picks out the packages that need attention: AUR packages among the
    /// Arch handles, unfree packages among the Nix handles, and unverified
    /// packages among the Flatpak and Snap handles. Each list is given as
    /// loaded from the registry, `None` when it could not be loaded.
    pub fn classify_packages(
        &mut self,
        aur: &Option<KnownPackages>,
        unfree: &Option<KnownPackages>,
        flathub: &Option<VerifiedApps>,
        snap: &Option<VerifiedApps>,
    )
        ensures
            final(self).spec_aur_packages() == old(self).spec_aur_packages() + keep(
                handles_for(old(self).spec_packages(), SupportedTarget::Arch),
                probe_pred(SupportedTarget::Arch, *aur, *unfree, *flathub, *snap),
            ),
            final(self).spec_nix_unfree() == old(self).spec_nix_unfree() + keep(
                handles_for(old(self).spec_packages(), SupportedTarget::Nix),
                probe_pred(SupportedTarget::Nix, *aur, *unfree, *flathub, *snap),
            ),
            final(self).spec_flathub_unverified() == old(self).spec_flathub_unverified() + keep(
                handles_for(old(self).spec_packages(), SupportedTarget::Flatpak),
                probe_pred(SupportedTarget::Flatpak, *aur, *unfree, *flathub, *snap),
            ),
            final(self).spec_snap_unverified() == old(self).spec_snap_unverified() + keep(
                handles_for(old(self).spec_packages(), SupportedTarget::Snap),
                probe_pred(SupportedTarget::Snap, *aur, *unfree, *flathub, *snap),
            ),
            final(self).spec_host() == old(self).spec_host(),
            final(self).spec_packages() == old(self).spec_packages(),
            final(self).spec_install_aur_helper() == old(self).spec_install_aur_helper(),
            final(self).spec_preferred_aur_helper() == old(self).spec_preferred_aur_helper(),
            final(self).spec_command() == old(self).spec_command(),
            final(self).spec_config() == old(self).spec_config(),
            final(self).spec_get_nix_config() == old(self).spec_get_nix_config(),
    {
        let targets: [SupportedTarget; 4] = [
            SupportedTarget::Arch,
            SupportedTarget::Nix,
            SupportedTarget::Flatpak,
            SupportedTarget::Snap,
        ];
        let mut k: usize = 0;
        while k < 4
            invariant
                k <= 4,
                targets@ == seq![
                    SupportedTarget::Arch,
                    SupportedTarget::Nix,
                    SupportedTarget::Flatpak,
                    SupportedTarget::Snap,
                ],
                self.spec_host() == old(self).spec_host(),
                self.spec_packages() == old(self).spec_packages(),
                self.spec_install_aur_helper() == old(self).spec_install_aur_helper(),
                self.spec_preferred_aur_helper() == old(self).spec_preferred_aur_helper(),
                self.spec_command() == old(self).spec_command(),
                self.spec_config() == old(self).spec_config(),
                self.spec_get_nix_config() == old(self).spec_get_nix_config(),
                self.spec_aur_packages() == old(self).spec_aur_packages() + if k > 0 {
                    keep(
                        handles_for(old(self).spec_packages(), SupportedTarget::Arch),
                        probe_pred(SupportedTarget::Arch, *aur, *unfree, *flathub, *snap),
                    )
                } else {
                    Seq::empty()
                },
                self.spec_nix_unfree() == old(self).spec_nix_unfree() + if k > 1 {
                    keep(
                        handles_for(old(self).spec_packages(), SupportedTarget::Nix),
                        probe_pred(SupportedTarget::Nix, *aur, *unfree, *flathub, *snap),
                    )
                } else {
                    Seq::empty()
                },
                self.spec_flathub_unverified() == old(self).spec_flathub_unverified() + if k > 2 {
                    keep(
                        handles_for(old(self).spec_packages(), SupportedTarget::Flatpak),
                        probe_pred(SupportedTarget::Flatpak, *aur, *unfree, *flathub, *snap),
                    )
                } else {
                    Seq::empty()
                },
                self.spec_snap_unverified() == old(self).spec_snap_unverified() + if k > 3 {
                    keep(
                        handles_for(old(self).spec_packages(), SupportedTarget::Snap),
                        probe_pred(SupportedTarget::Snap, *aur, *unfree, *flathub, *snap),
                    )
                } else {
                    Seq::empty()
                },
            decreases 4 - k,
        {
            let t = targets[k];
            let ghost lv = list_view(self.packages.spec_entries());
            proof {
                self.lemma_packages_view();
                lemma_handles_for_views(lv, t);
                let e = self.packages.spec_entries();
                assert(crate::target_map::keys_of(e) =~= crate::target_map::keys_of(lv));
                crate::target_map::lemma_key_index_keys(e, lv, t);
                crate::target_map::lemma_key_index(e, t);
            }
            let mut selected = match self.packages.get(&t) {
                Some(list) => select_handles(list, t, aur, unfree, flathub, snap),
                None => {
                    let v: Vec<String> = Vec::new();
                    assert(views(v@) =~= Seq::<Seq<char>>::empty());
                    v
                },
            };
            assert(views(selected@) == keep(
                handles_for(self.spec_packages(), t),
                probe_pred(t, *aur, *unfree, *flathub, *snap),
            ));
            let ghost before = self.spec_aur_packages();
            let ghost before_n = self.spec_nix_unfree();
            let ghost before_f = self.spec_flathub_unverified();
            let ghost before_s = self.spec_snap_unverified();
            let ghost sel = views(selected@);
            if k == 0 {
                let ghost o = self.aur_packages@;
                self.aur_packages.append(&mut selected);
                assert(views(self.aur_packages@) =~= views(o) + sel);
            } else if k == 1 {
                let ghost o = self.nix_unfree_packages@;
                self.nix_unfree_packages.append(&mut selected);
                assert(views(self.nix_unfree_packages@) =~= views(o) + sel);
            } else if k == 2 {
                let ghost o = self.flathub_unverified_packages@;
                self.flathub_unverified_packages.append(&mut selected);
                assert(views(self.flathub_unverified_packages@) =~= views(o) + sel);
            } else {
                let ghost o = self.snap_unverified_packages@;
                self.snap_unverified_packages.append(&mut selected);
                assert(views(self.snap_unverified_packages@) =~= views(o) + sel);
            }
            assert(Seq::<Seq<char>>::empty() + sel =~= sel);
            k = k + 1;
        }
    }

    /// Decides how AUR packages are to be installed: when there are AUR
    /// packages on an Arch host, the helper found on the host is chosen, or
    /// else one must be installed; otherwise nothing is needed.
    pub fn plan_aur_helper(&mut self) -> (res: AurPlan)
        ensures
            final(self).same_but_aur_helper(&*old(self)),
            final(self).spec_install_aur_helper() == old(self).spec_install_aur_helper(),
            if old(self).spec_aur_packages().len() > 0 && old(self).spec_host().variant == Some(DistroVariants::Arch) {
                match old(self).spec_host().aur_helper {
                    Some(h) => res matches AurPlan::Detected(r) && r@ == h@
                        && final(self).spec_preferred_aur_helper() == Some(h@),
                    None => res is NeedsInstall && final(self).spec_preferred_aur_helper()
                        == old(self).spec_preferred_aur_helper(),
                }
            } else {
                res is NotNeeded && final(self).spec_preferred_aur_helper() == old(self).spec_preferred_aur_helper()
            },
    {
        if self.aur_packages.len() > 0 && self.host.variant == Some(DistroVariants::Arch) {
            match &self.host.aur_helper {
                Some(helper) => {
                    let h = helper.clone();
                    self.preferred_aur_helper = Some(helper.clone());
                    AurPlan::Detected(h)
                },
                None => AurPlan::NeedsInstall,
            }
        } else {
            AurPlan::NotNeeded
        }
    }

    /// Records the AUR helper that the user chose to install.
    pub fn choose_aur_helper_to_install(&mut self, helper: String)
        ensures
            final(self).same_but_aur_helper(&*old(self)),
            final(self).spec_install_aur_helper(),
            final(self).spec_preferred_aur_helper() == Some(helper@),
    {
        self.preferred_aur_helper = Some(helper);
        self.install_aur_helper = true;
    }

    /// Whether the user is to choose how Nix packages are handled.
    pub fn needs_nix_choice(&self) -> (res: bool)
        ensures
            res == self.spec_needs_nix_choice(),
    {
        (self.host.variant == Some(DistroVariants::NixOS) || self.host.has_nix) && self.nix_unfree_packages.len() == 0
    }

    /// Settles how Nix packages are handled: as the user chose when there
    /// was a choice (`show_config`: show configuration lines rather than run
    /// commands), and as configuration lines otherwise.
    pub fn apply_nix_choice(&mut self, show_config: bool)
        ensures
            final(self).spec_get_nix_config() == if old(self).spec_needs_nix_choice() {
                show_config
            } else {
                true
            },
            final(self).spec_host() == old(self).spec_host(),
            final(self).spec_packages() == old(self).spec_packages(),
            final(self).spec_aur_packages() == old(self).spec_aur_packages(),
            final(self).spec_install_aur_helper() == old(self).spec_install_aur_helper(),
            final(self).spec_preferred_aur_helper() == old(self).spec_preferred_aur_helper(),
            final(self).spec_nix_unfree() == old(self).spec_nix_unfree(),
            final(self).spec_flathub_unverified() == old(self).spec_flathub_unverified(),
            final(self).spec_snap_unverified() == old(self).spec_snap_unverified(),
            final(self).spec_command() == old(self).spec_command(),
            final(self).spec_config() == old(self).spec_config(),
    {
        if self.needs_nix_choice() {
            self.get_nix_config = show_config;
        } else {
            self.get_nix_config = true;
        }
    }

    /// The commands that must run before the installation (installing an
    /// AUR helper), or the first target, in order, that this host cannot
    /// serve.
    pub fn dependency_commands(&self) -> (res: Result<Vec<String>, DependencyError>)
        ensures
            match self.spec_dependencies() {
                Ok(cmds) => res matches Ok(v) && views(v@) == cmds,
                Err(e) => res == Err::<Vec<String>, DependencyError>(e),
            },
            distinct_keys(self.spec_packages()),
    {
        let entries = self.packages.entries();
        proof {
            self.lemma_packages_distinct();
        }
        let ghost keys = self.spec_targets();
        proof {
            assert forall|j: int| 0 <= j < entries@.len() implies #[trigger] keys[j] == entries@[j].0 by {}
        }
        let mut cmds: Vec<String> = Vec::new();
        let mut i: usize = 0;
        assert(keys.take(0) =~= Seq::<SupportedTarget>::empty());
        assert(views(cmds@) =~= Seq::<Seq<char>>::empty());
        while i < entries.len()
            invariant
                i <= entries.len(),
                entries@ == self.packages.spec_entries(),
                keys == self.spec_targets(),
                distinct_keys(self.spec_packages()),
                keys.len() == entries@.len(),
                forall|j: int| 0 <= j < entries@.len() ==> #[trigger] keys[j] == entries@[j].0,
                dependencies(
                    keys.take(i as int),
                    self.spec_host(),
                    self.spec_aur_packages().len() > 0,
                    self.spec_install_aur_helper(),
                    self.spec_preferred_aur_helper(),
                ) == Ok::<Seq<Seq<char>>, DependencyError>(views(cmds@)),
            decreases entries.len() - i,
        {
            let t = entries[i].0;
            assert(keys.take(i + 1).drop_last() =~= keys.take(i as int));
            assert(keys.take(i + 1).last() == t);
            match t {
                SupportedTarget::Arch => {
                    if self.aur_packages.len() > 0 && !self.host.has_aur {
                        if self.install_aur_helper {
                            match &self.preferred_aur_helper {
                                Some(helper) => {
                                    let c = self.generate_aur_helper_install_command(helper.clone());
                                    let ghost o = cmds@;
                                    cmds.push(c);
                                    assert(views(cmds@) =~= views(o).push(c@));
                                },
                                None => {
                                    proof { lemma_dependencies_stop(keys, self.spec_host(), self.spec_aur_packages().len() > 0, self.spec_install_aur_helper(), self.spec_preferred_aur_helper(), i as int); }
                                    return Err(DependencyError::NoPreferredAurHelper);
                                },
                            }
                        } else {
                            proof { lemma_dependencies_stop(keys, self.spec_host(), self.spec_aur_packages().len() > 0, self.spec_install_aur_helper(), self.spec_preferred_aur_helper(), i as int); }
                            return Err(DependencyError::AurHelperDeclined);
                        }
                    }
                },
                SupportedTarget::Nix => {
                    if !self.host.has_nix {
                        proof { lemma_dependencies_stop(keys, self.spec_host(), self.spec_aur_packages().len() > 0, self.spec_install_aur_helper(), self.spec_preferred_aur_helper(), i as int); }
                        return Err(DependencyError::MissingNix);
                    }
                },
                SupportedTarget::Flatpak => {
                    if !self.host.has_flatpak {
                        proof { lemma_dependencies_stop(keys, self.spec_host(), self.spec_aur_packages().len() > 0, self.spec_install_aur_helper(), self.spec_preferred_aur_helper(), i as int); }
                        return Err(DependencyError::MissingFlatpak);
                    }
                },
                SupportedTarget::Snap => {
                    if !self.host.has_snap {
                        proof { lemma_dependencies_stop(keys, self.spec_host(), self.spec_aur_packages().len() > 0, self.spec_install_aur_helper(), self.spec_preferred_aur_helper(), i as int); }
                        return Err(DependencyError::MissingSnap);
                    }
                },
                SupportedTarget::Homebrew => {
                    if !self.host.has_homebrew {
                        proof { lemma_dependencies_stop(keys, self.spec_host(), self.spec_aur_packages().len() > 0, self.spec_install_aur_helper(), self.spec_preferred_aur_helper(), i as int); }
                        return Err(DependencyError::MissingHomebrew);
                    }
                },
                SupportedTarget::Npm => {
                    if !self.host.has_npm {
                        proof { lemma_dependencies_stop(keys, self.spec_host(), self.spec_aur_packages().len() > 0, self.spec_install_aur_helper(), self.spec_preferred_aur_helper(), i as int); }
                        return Err(DependencyError::MissingNpm);
                    }
                },
                SupportedTarget::Script => {
                    if !self.host.has_curl {
                        proof { lemma_dependencies_stop(keys, self.spec_host(), self.spec_aur_packages().len() > 0, self.spec_install_aur_helper(), self.spec_preferred_aur_helper(), i as int); }
                        return Err(DependencyError::MissingCurl);
                    }
                },
                _ => {},
            }
            i = i + 1;
        }
        assert(keys.take(entries.len() as int) =~= keys);
        Ok(cmds)
    }
}

impl CommandGenerator {
    /// Composes the installation command: the commands of the targets in
    /// order, joined with `&&`, and the Nix configuration lines when Nix
    /// packages are to be shown as configuration. With no package nothing
    /// changes. Fails, changing nothing, when AUR packages are to be
    /// installed but no AUR helper was chosen.
    pub fn generate_installation_command(&mut self) -> (res: Result<(), ComposeError>)
        ensures
            final(self).spec_host() == old(self).spec_host(),
            final(self).spec_packages() == old(self).spec_packages(),
            final(self).spec_aur_packages() == old(self).spec_aur_packages(),
            final(self).spec_install_aur_helper() == old(self).spec_install_aur_helper(),
            final(self).spec_preferred_aur_helper() == old(self).spec_preferred_aur_helper(),
            final(self).spec_nix_unfree() == old(self).spec_nix_unfree(),
            final(self).spec_flathub_unverified() == old(self).spec_flathub_unverified(),
            final(self).spec_snap_unverified() == old(self).spec_snap_unverified(),
            final(self).spec_get_nix_config() == old(self).spec_get_nix_config(),
            old(self).spec_packages().len() == 0 ==> res is Ok && final(self).spec_command()
                == old(self).spec_command() && final(self).spec_config() == old(self).spec_config(),
            old(self).spec_packages().len() > 0 ==> match old(self).spec_compose() {
                Some((segs, cfg)) => res is Ok && final(self).spec_command() == join(segs, " && "@)
                    && final(self).spec_config() == cfg,
                None => res == Err::<(), ComposeError>(ComposeError::NoPreferredAurHelper)
                    && final(self).spec_command() == old(self).spec_command()
                    && final(self).spec_config() == old(self).spec_config(),
            },
            distinct_keys(final(self).spec_packages()),
    {
        proof {
            use_type_invariant(&self.packages);
            self.lemma_packages_distinct();
        }
        if self.packages.is_empty() {
            return Ok(());
        }
        let entries = self.packages.entries();
        let ghost pv = self.spec_packages();
        let ghost aur = self.spec_aur_packages();
        let ghost helper = self.spec_preferred_aur_helper();
        let ghost as_config = self.spec_get_nix_config();
        let ghost with_unfree = self.spec_nix_unfree().len() > 0;
        let mut segments: Vec<String> = Vec::new();
        let mut config = String::new();
        let mut i: usize = 0;
        assert(pv.take(0) =~= Seq::<(SupportedTarget, Seq<Seq<char>>)>::empty());
        assert(views(segments@) =~= Seq::<Seq<char>>::empty());
        while i < entries.len()
            invariant
                i <= entries.len(),
                entries@ == self.packages.spec_entries(),
                pv == self.spec_packages(),
                distinct_keys(pv),
                pv.len() == entries@.len(),
                aur == self.spec_aur_packages(),
                helper == self.spec_preferred_aur_helper(),
                as_config == self.spec_get_nix_config(),
                with_unfree == (self.spec_nix_unfree().len() > 0),
                compose(pv.take(i as int), aur, helper, as_config, with_unfree) == Some((views(segments@), config@)),
            decreases entries.len() - i,
        {
            let t = entries[i].0;
            let list = clone_strings(&entries[i].1);
            assert(pv[i as int] == (t, views(entries@[i as int].1@)));
            assert(pv.take(i + 1).drop_last() =~= pv.take(i as int));
            assert(pv.take(i + 1).last() == pv[i as int]);
            let ghost old_segs = segments@;
            let piece: Option<String> = match t {
                SupportedTarget::Debian | SupportedTarget::Ubuntu => Some(self.generate_apt_command(list)),
                SupportedTarget::Arch => {
                    if self.aur_packages.len() == 0 {
                        Some(self.generate_pacman_command(list))
                    } else {
                        match &self.preferred_aur_helper {
                            Some(h) => Some(self.generate_aur_command(list, h.clone())),
                            None => {
                                proof {
                                    lemma_compose_stop(pv, aur, helper, as_config, with_unfree, i as int);
                                }
                                return Err(ComposeError::NoPreferredAurHelper);
                            },
                        }
                    }
                },
                SupportedTarget::Fedora => Some(self.generate_dnf_command(list)),
                SupportedTarget::OpenSUSE => Some(self.generate_zypper_command(list)),
                SupportedTarget::Nix => {
                    if self.get_nix_config {
                        let c = self.generate_nix_config(list);
                        config = config.concat(c.as_str());
                        None
                    } else {
                        Some(self.generate_nix_command(list))
                    }
                },
                SupportedTarget::Flatpak => Some(self.generate_flatpak_command(list)),
                SupportedTarget::Snap => Some(self.generate_snap_command(list)),
                SupportedTarget::Homebrew => Some(self.generate_homebrew_command(list)),
                SupportedTarget::Npm => Some(self.generate_npm_command(list)),
                SupportedTarget::Script => Some(self.generate_script_command(list)),
            };
            match piece {
                Some(c) => {
                    segments.push(c);
                    assert(views(segments@) =~= views(old_segs).push(c@));
                },
                None => {},
            }
            i = i + 1;
        }
        assert(pv.take(entries.len() as int) =~= pv);
        let command = join_exec(&segments, " && ");
        self.generated_command = command;
        self.generated_config = config;
        Ok(())
    }

    // -----------------------------------------------------------------
    // Reading the state
    // -----------------------------------------------------------------

    /// What is known of the host.
    pub fn host(&self) -> (res: &DistroInfo)
        ensures
            *res == self.spec_host(),
    {
        &self.host
    }

    /// The handles to install under each target, in order.
    pub fn package_entries(&self) -> (res: &Vec<(SupportedTarget, Vec<String>)>)
        ensures
            res@.len() == self.spec_packages().len(),
            forall|i: int| 0 <= i < res@.len() ==> (#[trigger] res@[i]).0 == self.spec_packages()[i].0
                && views(res@[i].1@) == self.spec_packages()[i].1,
            distinct_keys(self.spec_packages()),
    {
        let res = self.packages.entries();
        proof {
            self.lemma_packages_distinct();
        }
        res
    }

    /// Whether no package has been sorted.
    pub fn has_no_packages(&self) -> (res: bool)
        ensures
            res == (self.spec_packages().len() == 0),
    {
        self.packages.is_empty()
    }

    /// The AUR packages found among the Arch handles.
    pub fn aur_packages(&self) -> (res: &Vec<String>)
        ensures
            views(res@) == self.spec_aur_packages(),
    {
        &self.aur_packages
    }

    /// The unfree packages found among the Nix handles.
    pub fn nix_unfree_packages(&self) -> (res: &Vec<String>)
        ensures
            views(res@) == self.spec_nix_unfree(),
    {
        &self.nix_unfree_packages
    }

    /// The unverified packages found among the Flatpak handles.
    pub fn flathub_unverified_packages(&self) -> (res: &Vec<String>)
        ensures
            views(res@) == self.spec_flathub_unverified(),
    {
        &self.flathub_unverified_packages
    }

    /// The unverified packages found among the Snap handles.
    pub fn snap_unverified_packages(&self) -> (res: &Vec<String>)
        ensures
            views(res@) == self.spec_snap_unverified(),
    {
        &self.snap_unverified_packages
    }

    /// Whether an AUR helper is to be installed first.
    pub fn install_aur_helper(&self) -> (res: bool)
        ensures
            res == self.spec_install_aur_helper(),
    {
        self.install_aur_helper
    }

    /// The AUR helper to use, if one was chosen.
    pub fn preferred_aur_helper(&self) -> (res: &Option<String>)
        ensures
            match self.spec_preferred_aur_helper() {
                Some(h) => res matches Some(r) && r@ == h,
                None => res is None,
            },
    {
        &self.preferred_aur_helper
    }

    /// The composed installation command.
    pub fn generated_command(&self) -> (res: &String)
        ensures
            res@ == self.spec_command(),
    {
        &self.generated_command
    }

    /// The composed Nix configuration lines.
    pub fn generated_config(&self) -> (res: &String)
        ensures
            res@ == self.spec_config(),
    {
        &self.generated_config
    }

    /// Whether Nix packages are shown as configuration lines.
    pub fn get_nix_config(&self) -> (res: bool)
        ensures
            res == self.spec_get_nix_config(),
    {
        self.get_nix_config
    }
}

/// Once a target fails, composing any longer prefix fails too.
proof fn lemma_compose_stop(
    e: Seq<(SupportedTarget, Seq<Seq<char>>)>,
    aur: Seq<Seq<char>>,
    helper: Option<Seq<char>>,
    as_config: bool,
    with_unfree: bool,
    i: int,
)
    requires
        0 <= i < e.len(),
        part_for(e[i].0, e[i].1, aur, helper, as_config, with_unfree) is Fail,
    ensures
        compose(e, aur, helper, as_config, with_unfree) is None,
    decreases e.len(),
{
    if e.len() == i + 1 {
    } else {
        lemma_compose_stop(e.drop_last(), aur, helper, as_config, with_unfree, i);
    }
}

/// Once a target fails, the dependency check of every longer prefix fails
/// with the same error.
proof fn lemma_dependencies_stop(
    keys: Seq<SupportedTarget>,
    host: DistroInfo,
    has_aur_packages: bool,
    install_helper: bool,
    helper: Option<Seq<char>>,
    i: int,
)
    requires
        0 <= i < keys.len(),
        dependencies(keys.take(i), host, has_aur_packages, install_helper, helper) is Ok,
        dependency_check(keys[i], host, has_aur_packages, install_helper, helper) is Err,
    ensures
        dependencies(keys, host, has_aur_packages, install_helper, helper) == Err::<Seq<Seq<char>>, DependencyError>(
            dependency_check(keys[i], host, has_aur_packages, install_helper, helper)->Err_0,
        ),
    decreases keys.len(),
{
    if keys.len() == i + 1 {
        assert(keys.drop_last() =~= keys.take(i));
    } else {
        assert(keys.drop_last().take(i) =~= keys.take(i));
        lemma_dependencies_stop(keys.drop_last(), host, has_aur_packages, install_helper, helper, i);
    }
}

/// The handles stored under a target, seen through both views of the map.
proof fn lemma_handles_for_views(lv: Seq<(SupportedTarget, Seq<String>)>, t: SupportedTarget)
    ensures
        ({
            let pv = Seq::new(lv.len(), |i: int| (lv[i].0, views(lv[i].1)));
            &&& lookup(lv, t) matches Some(l) ==> handles_for(pv, t) == views(l)
            &&& lookup(lv, t) is None ==> handles_for(pv, t) == Seq::<Seq<char>>::empty()
        }),
{
    let pv = Seq::new(lv.len(), |i: int| (lv[i].0, views(lv[i].1)));
    assert(crate::target_map::keys_of(lv) =~= crate::target_map::keys_of(pv));
    crate::target_map::lemma_key_index_keys(lv, pv, t);
    crate::target_map::lemma_key_index(lv, t);
}

/// The handle test that `classify_packages` applies for one target: AUR
/// packages on Arch, unfree packages on Nix, unverified Flathub and Snap
/// packages.
pub open spec fn probe_pred(
    t: SupportedTarget,
    aur: Option<KnownPackages>,
    unfree: Option<KnownPackages>,
    flathub: Option<VerifiedApps>,
    snap: Option<VerifiedApps>,
) -> spec_fn(Seq<char>) -> bool {
    match t {
        SupportedTarget::Arch => |h: Seq<char>| aur_check(h, aur),
        SupportedTarget::Nix => |h: Seq<char>| unfree_check(h, unfree),
        SupportedTarget::Flatpak => |h: Seq<char>| !flathub_check(h, flathub),
        _ => |h: Seq<char>| !snap_check(h, snap),
    }
}

/// The handles of `list` that the test for `t` selects, in order.
fn select_handles(
    list: &Vec<String>,
    t: SupportedTarget,
    aur: &Option<KnownPackages>,
    unfree: &Option<KnownPackages>,
    flathub: &Option<VerifiedApps>,
    snap: &Option<VerifiedApps>,
) -> (res: Vec<String>)
    ensures
        views(res@) == keep(views(list@), probe_pred(t, *aur, *unfree, *flathub, *snap)),
{
    let ghost pred = probe_pred(t, *aur, *unfree, *flathub, *snap);
    let mut res: Vec<String> = Vec::new();
    let mut i: usize = 0;
    while i < list.len()
        invariant
            i <= list.len(),
            pred == probe_pred(t, *aur, *unfree, *flathub, *snap),
            views(res@) == keep(views(list@).take(i as int), pred),
        decreases list.len() - i,
    {
        let h = list[i].as_str();
        let chosen = match t {
            SupportedTarget::Arch => is_aur_package(h, aur),
            SupportedTarget::Nix => is_unfree_nix_package(h, unfree),
            SupportedTarget::Flatpak => !is_flathub_verified(h, flathub),
            _ => !is_snap_verified(h, snap),
        };
        assert(chosen == pred(list@[i as int]@));
        assert(views(list@).take(i + 1).drop_last() =~= views(list@).take(i as int));
        assert(views(list@).take(i + 1).last() == list@[i as int]@);
        if chosen {
            let c = list[i].clone();
            let ghost old_res = res@;
            res.push(c);
            assert(views(res@) =~= views(old_res).push(c@));
        }
        i = i + 1;
    }
    assert(views(list@).take(list.len() as int) =~= views(list@));
    res
}

/// What the host must be given before a target's packages can be
/// installed: nothing, a command to run first, or an error.
pub open spec fn dependency_check(
    t: SupportedTarget,
    host: DistroInfo,
    has_aur_packages: bool,
    install_helper: bool,
    helper: Option<Seq<char>>,
) -> Result<Option<Seq<char>>, DependencyError> {
    match t {
        SupportedTarget::Arch => if has_aur_packages && !host.has_aur {
            if install_helper {
                match helper {
                    Some(h) => Ok(Some(aur_helper_install_command(h))),
                    None => Err(DependencyError::NoPreferredAurHelper),
                }
            } else {
                Err(DependencyError::AurHelperDeclined)
            }
        } else {
            Ok(None)
        },
        SupportedTarget::Nix => if host.has_nix { Ok(None) } else { Err(DependencyError::MissingNix) },
        SupportedTarget::Flatpak => if host.has_flatpak { Ok(None) } else { Err(DependencyError::MissingFlatpak) },
        SupportedTarget::Snap => if host.has_snap { Ok(None) } else { Err(DependencyError::MissingSnap) },
        SupportedTarget::Homebrew => if host.has_homebrew { Ok(None) } else { Err(DependencyError::MissingHomebrew) },
        SupportedTarget::Npm => if host.has_npm { Ok(None) } else { Err(DependencyError::MissingNpm) },
        SupportedTarget::Script => if host.has_curl { Ok(None) } else { Err(DependencyError::MissingCurl) },
        _ => Ok(None),
    }
}

/// The commands to run before installing, target by target in order; the
/// first target that cannot be served stops it with its error.
pub open spec fn dependencies(
    keys: Seq<SupportedTarget>,
    host: DistroInfo,
    has_aur_packages: bool,
    install_helper: bool,
    helper: Option<Seq<char>>,
) -> Result<Seq<Seq<char>>, DependencyError>
    decreases keys.len(),
{
    if keys.len() == 0 {
        Ok(Seq::empty())
    } else {
        match dependencies(keys.drop_last(), host, has_aur_packages, install_helper, helper) {
            Err(e) => Err(e),
            Ok(cmds) => match dependency_check(keys.last(), host, has_aur_packages, install_helper, helper) {
                Err(e) => Err(e),
                Ok(Some(c)) => Ok(cmds.push(c)),
                Ok(None) => Ok(cmds),
            },
        }
    }
}

/// What a target and its handles contribute to the installation: a command,
/// Nix configuration lines, or a failure (AUR packages with no helper).
/// On Arch, when there are AUR packages, all Arch handles are installed with
/// the AUR helper, which also installs repository packages.
pub open spec fn part_for(
    t: SupportedTarget,
    p: Seq<Seq<char>>,
    aur: Seq<Seq<char>>,
    helper: Option<Seq<char>>,
    nix_as_config: bool,
    with_unfree: bool,
) -> Part {
    match t {
        SupportedTarget::Debian | SupportedTarget::Ubuntu => Part::Command(apt_command(p)),
        SupportedTarget::Arch => if aur.len() == 0 {
            Part::Command(pacman_command(p))
        } else {
            match helper {
                Some(h) => Part::Command(aur_command(p, h)),
                None => Part::Fail,
            }
        },
        SupportedTarget::Fedora => Part::Command(dnf_command(p)),
        SupportedTarget::OpenSUSE => Part::Command(zypper_command(p)),
        SupportedTarget::Nix => if nix_as_config {
            Part::Config(nix_config(p, with_unfree))
        } else {
            Part::Command(nix_command(p))
        },
        SupportedTarget::Flatpak => Part::Command(flatpak_command(p)),
        SupportedTarget::Snap => Part::Command(snap_command(p)),
        SupportedTarget::Homebrew => Part::Command(homebrew_command(p)),
        SupportedTarget::Npm => Part::Command(npm_command(p)),
        SupportedTarget::Script => Part::Command(script_command(p)),
    }
}

/// The command pieces and the configuration text of the targets in order,
/// or `None` when some target fails.
pub open spec fn compose(
    e: Seq<(SupportedTarget, Seq<Seq<char>>)>,
    aur: Seq<Seq<char>>,
    helper: Option<Seq<char>>,
    nix_as_config: bool,
    with_unfree: bool,
) -> Option<(Seq<Seq<char>>, Seq<char>)>
    decreases e.len(),
{
    if e.len() == 0 {
        Some((Seq::empty(), Seq::empty()))
    } else {
        match compose(e.drop_last(), aur, helper, nix_as_config, with_unfree) {
            None => None,
            Some((cmds, cfg)) => match part_for(e.last().0, e.last().1, aur, helper, nix_as_config, with_unfree) {
                Part::Command(c) => Some((cmds.push(c), cfg)),
                Part::Config(c) => Some((cmds, cfg + c)),
                Part::Fail => None,
            },
        }
    }
}

// ---------------------------------------------------------------------
// What the composed installation holds
// ---------------------------------------------------------------------

/// What a handle is installed as: a Homebrew cask handle (one that begins
/// with `--cask`) without its `--cask ` markers, any other handle as it is.
pub open spec fn installed_name(t: SupportedTarget, h: Seq<char>) -> Seq<char> {
    if t == SupportedTarget::Homebrew && has_prefix(h, "--cask"@) {
        remove_all(h, "--cask "@)
    } else {
        h
    }
}

/// Each Homebrew handle lands among the casks (without its markers) or
/// among the formulae.
proof fn lemma_brew_split_places(p: Seq<Seq<char>>, j: int)
    requires
        0 <= j < p.len(),
    ensures
        has_prefix(p[j], "--cask"@) ==> exists|k: int|
            0 <= k < brew_split(p).1.len() && brew_split(p).1[k] == remove_all(p[j], "--cask "@),
        !has_prefix(p[j], "--cask"@) ==> exists|k: int|
            0 <= k < brew_split(p).0.len() && brew_split(p).0[k] == p[j],
    decreases p.len(),
{
    let (f0, c0) = brew_split(p.drop_last());
    if j == p.len() - 1 {
        if has_prefix(p.last(), "--cask"@) {
            assert(brew_split(p).1[c0.len() as int] == remove_all(p[j], "--cask "@));
        } else {
            assert(brew_split(p).0[f0.len() as int] == p[j]);
        }
    } else {
        lemma_brew_split_places(p.drop_last(), j);
        assert(p.drop_last()[j] == p[j]);
        if has_prefix(p[j], "--cask"@) {
            let k = choose|k: int| 0 <= k < c0.len() && c0[k] == remove_all(p[j], "--cask "@);
            assert(brew_split(p).1[k] == c0[k]);
        } else {
            let k = choose|k: int| 0 <= k < f0.len() && f0[k] == p[j];
            assert(brew_split(p).0[k] == f0[k]);
        }
    }
}

/// What `a + join(p, sep)` holds: every handle of `p`.
proof fn lemma_after_join_has(a: Seq<char>, p: Seq<Seq<char>>, sep: Seq<char>, j: int)
    requires
        0 <= j < p.len(),
    ensures
        has_infix(a + join(p, sep), p[j]),
{
    lemma_join_has_part(p, sep, j);
    lemma_infix_after(a, join(p, sep), p[j]);
}

/// The part of a target holds each of its handles, as it is installed.
proof fn lemma_part_has_handle(
    t: SupportedTarget,
    p: Seq<Seq<char>>,
    aur: Seq<Seq<char>>,
    helper: Option<Seq<char>>,
    nix_as_config: bool,
    with_unfree: bool,
    j: int,
)
    requires
        0 <= j < p.len(),
    ensures
        match part_for(t, p, aur, helper, nix_as_config, with_unfree) {
            Part::Command(c) => !(t == SupportedTarget::Nix && nix_as_config) && has_infix(c, installed_name(t, p[j])),
            Part::Config(c) => t == SupportedTarget::Nix && nix_as_config && has_infix(c, p[j]),
            Part::Fail => true,
        },
{
    match t {
        SupportedTarget::Debian | SupportedTarget::Ubuntu => {
            lemma_after_join_has("sudo apt update && sudo apt install -y "@, p, " "@, j);
        },
        SupportedTarget::Arch => {
            lemma_after_join_has("sudo pacman -S --needed --noconfirm "@, p, " "@, j);
            if let Some(h) = helper {
                lemma_after_join_has(h + " -S --needed --noconfirm "@, p, " "@, j);
            }
        },
        SupportedTarget::Fedora => {
            lemma_after_join_has("sudo dnf install -y "@, p, " "@, j);
        },
        SupportedTarget::OpenSUSE => {
            lemma_after_join_has("sudo zypper install -y "@, p, " "@, j);
        },
        SupportedTarget::Nix => {
            if nix_as_config {
                let head = if with_unfree {
                    "# In /etc/nixos/configuration.nix\n\nnixpkgs.config.allowUnfree = true; # Allow installation of unfree packages, add this line to your NixOS configuration, if not already present.\n\nenvironment.systemPackages = with pkgs; [\n    "@
                } else {
                    "# In /etc/nixos/configuration.nix\n\nenvironment.systemPackages = with pkgs; [\n    "@
                };
                lemma_after_join_has(head, p, "\n    "@, j);
                lemma_infix_before(head + join(p, "\n    "@), "\n];"@, p[j]);
            } else {
                lemma_join_prefixed_has_part(p, "nixpkgs."@, " "@, j);
                lemma_infix_after("sudo nix-env -iA "@, join(prefix_each(p, "nixpkgs."@), " "@), p[j]);
            }
        },
        SupportedTarget::Flatpak => {
            lemma_after_join_has(
                "flatpak remote-add --if-not-exists flathub https://dl.flathub.org/repo/flathub.flatpakrepo && flatpak install flathub -y "@,
                p,
                " "@,
                j,
            );
        },
        SupportedTarget::Snap => {
            lemma_join_prefixed_has_part(p, "sudo snap install "@, " && "@, j);
        },
        SupportedTarget::Homebrew => {
            let (f, c) = brew_split(p);
            let fs = prefix_each(f, "brew install "@);
            let cs = prefix_each(c, "brew install --cask "@);
            let all = fs + cs;
            lemma_brew_split_places(p, j);
            if has_prefix(p[j], "--cask"@) {
                let k = choose|k: int| 0 <= k < c.len() && c[k] == remove_all(p[j], "--cask "@);
                assert(all[f.len() + k] == cs[k]);
                lemma_join_has_part(all, " && "@, f.len() + k);
                lemma_infix_self(c[k]);
                lemma_infix_after("brew install --cask "@, c[k], c[k]);
                lemma_infix_trans(join(all, " && "@), all[f.len() + k], c[k]);
            } else {
                let k = choose|k: int| 0 <= k < f.len() && f[k] == p[j];
                assert(all[k] == fs[k]);
                lemma_join_has_part(all, " && "@, k);
                lemma_infix_self(f[k]);
                lemma_infix_after("brew install "@, f[k], f[k]);
                lemma_infix_trans(join(all, " && "@), all[k], f[k]);
            }
        },
        SupportedTarget::Npm => {
            lemma_after_join_has("npm install -g "@, p, " "@, j);
        },
        SupportedTarget::Script => {
            lemma_join_has_part(p, " && "@, j);
        },
    }
}

/// Installing an AUR helper builds it from its AUR repository in
/// `/tmp/tuxmate-aur-build` with `makepkg`, then removes that directory.
pub proof fn lemma_aur_helper_install_command(helper: Seq<char>)
    ensures
        aur_helper_install_command(helper) == "mkdir -p /tmp/tuxmate-aur-build && cd /tmp/tuxmate-aur-build && git clone https://aur.archlinux.org/"@
            + helper + ".git && cd "@ + helper + " && makepkg -si --noconfirm && cd .. && rm -rf /tmp/tuxmate-aur-build"@,
{
    reveal_strlit("/tmp/tuxmate-aur-build");
    reveal_strlit("mkdir -p ");
    reveal_strlit(" && cd ");
    reveal_strlit(" && git clone https://aur.archlinux.org/");
    reveal_strlit("mkdir -p /tmp/tuxmate-aur-build && cd /tmp/tuxmate-aur-build && git clone https://aur.archlinux.org/");
    reveal_strlit(" && makepkg -si --noconfirm && cd .. && rm -rf ");
    reveal_strlit(" && makepkg -si --noconfirm && cd .. && rm -rf /tmp/tuxmate-aur-build");
    assert("mkdir -p "@ + "/tmp/tuxmate-aur-build"@ + " && cd "@ + "/tmp/tuxmate-aur-build"@
        + " && git clone https://aur.archlinux.org/"@
        =~= "mkdir -p /tmp/tuxmate-aur-build && cd /tmp/tuxmate-aur-build && git clone https://aur.archlinux.org/"@);
    assert(" && makepkg -si --noconfirm && cd .. && rm -rf "@ + "/tmp/tuxmate-aur-build"@
        =~= " && makepkg -si --noconfirm && cd .. && rm -rf /tmp/tuxmate-aur-build"@);
    let a = "mkdir -p /tmp/tuxmate-aur-build && cd /tmp/tuxmate-aur-build && git clone https://aur.archlinux.org/"@;
    let b = " && makepkg -si --noconfirm && cd .. && rm -rf "@;
    let d = "/tmp/tuxmate-aur-build"@;
    let g = ".git && cd "@;
    assert(aur_helper_install_command(helper) =~= a + helper + g + helper + (b + d));
}

/// Each target's piece is its own package manager's invocation followed by
/// its handles: apt for Debian and Ubuntu, pacman for Arch (the AUR helper
/// when there are AUR packages), dnf for Fedora, zypper for openSUSE,
/// nix-env (or configuration lines) for Nix, flatpak, one `snap install` per
/// handle, one `brew install` per formula and cask, npm, and the script
/// handles themselves.
pub proof fn lemma_target_pieces(
    p: Seq<Seq<char>>,
    aur: Seq<Seq<char>>,
    helper: Option<Seq<char>>,
    nix_as_config: bool,
    with_unfree: bool,
)
    ensures
        part_for(SupportedTarget::Debian, p, aur, helper, nix_as_config, with_unfree) == Part::Command(
            "sudo apt update && sudo apt install -y "@ + join(p, " "@),
        ),
        part_for(SupportedTarget::Ubuntu, p, aur, helper, nix_as_config, with_unfree) == Part::Command(
            "sudo apt update && sudo apt install -y "@ + join(p, " "@),
        ),
        aur.len() == 0 ==> part_for(SupportedTarget::Arch, p, aur, helper, nix_as_config, with_unfree)
            == Part::Command("sudo pacman -S --needed --noconfirm "@ + join(p, " "@)),
        aur.len() > 0 && helper is Some ==> part_for(SupportedTarget::Arch, p, aur, helper, nix_as_config, with_unfree)
            == Part::Command(helper->Some_0 + " -S --needed --noconfirm "@ + join(p, " "@)),
        aur.len() > 0 && helper is None ==> part_for(SupportedTarget::Arch, p, aur, helper, nix_as_config, with_unfree) is Fail,
        part_for(SupportedTarget::Fedora, p, aur, helper, nix_as_config, with_unfree) == Part::Command(
            "sudo dnf install -y "@ + join(p, " "@),
        ),
        part_for(SupportedTarget::OpenSUSE, p, aur, helper, nix_as_config, with_unfree) == Part::Command(
            "sudo zypper install -y "@ + join(p, " "@),
        ),
        !nix_as_config ==> part_for(SupportedTarget::Nix, p, aur, helper, nix_as_config, with_unfree) == Part::Command(
            "sudo nix-env -iA "@ + join(prefix_each(p, "nixpkgs."@), " "@),
        ),
        nix_as_config && !with_unfree ==> part_for(SupportedTarget::Nix, p, aur, helper, nix_as_config, with_unfree)
            == Part::Config(
            "# In /etc/nixos/configuration.nix\n\nenvironment.systemPackages = with pkgs; [\n    "@ + join(p, "\n    "@)
                + "\n];"@,
        ),
        nix_as_config && with_unfree ==> part_for(SupportedTarget::Nix, p, aur, helper, nix_as_config, with_unfree)
            == Part::Config(
            "# In /etc/nixos/configuration.nix\n\nnixpkgs.config.allowUnfree = true; # Allow installation of unfree packages, add this line to your NixOS configuration, if not already present.\n\nenvironment.systemPackages = with pkgs; [\n    "@
                + join(p, "\n    "@) + "\n];"@,
        ),
        part_for(SupportedTarget::Flatpak, p, aur, helper, nix_as_config, with_unfree) == Part::Command(
            "flatpak remote-add --if-not-exists flathub https://dl.flathub.org/repo/flathub.flatpakrepo && flatpak install flathub -y "@
                + join(p, " "@),
        ),
        part_for(SupportedTarget::Snap, p, aur, helper, nix_as_config, with_unfree) == Part::Command(
            join(prefix_each(p, "sudo snap install "@), " && "@),
        ),
        part_for(SupportedTarget::Homebrew, p, aur, helper, nix_as_config, with_unfree) == Part::Command(
            join(
                prefix_each(brew_split(p).0, "brew install "@) + prefix_each(brew_split(p).1, "brew install --cask "@),
                " && "@,
            ),
        ),
        part_for(SupportedTarget::Npm, p, aur, helper, nix_as_config, with_unfree) == Part::Command(
            "npm install -g "@ + join(p, " "@),
        ),
        part_for(SupportedTarget::Script, p, aur, helper, nix_as_config, with_unfree) == Part::Command(
            join(p, " && "@),
        ),
{
}

/// Once composed, each target's part is kept: its command among the pieces,
/// its configuration lines within the configuration text.
pub proof fn lemma_compose_keeps_part(
    e: Seq<(SupportedTarget, Seq<Seq<char>>)>,
    aur: Seq<Seq<char>>,
    helper: Option<Seq<char>>,
    nix_as_config: bool,
    with_unfree: bool,
    i: int,
)
    requires
        compose(e, aur, helper, nix_as_config, with_unfree) is Some,
        0 <= i < e.len(),
    ensures
        ({
            let segs = compose(e, aur, helper, nix_as_config, with_unfree)->Some_0.0;
            let cfg = compose(e, aur, helper, nix_as_config, with_unfree)->Some_0.1;
            match part_for(e[i].0, e[i].1, aur, helper, nix_as_config, with_unfree) {
                Part::Command(c) => exists|k: int| 0 <= k < segs.len() && segs[k] == c,
                Part::Config(c) => has_infix(cfg, c),
                Part::Fail => false,
            }
        }),
    decreases e.len(),
{
    let prev = compose(e.drop_last(), aur, helper, nix_as_config, with_unfree);
    let (segs0, cfg0) = prev->Some_0;
    let segs = compose(e, aur, helper, nix_as_config, with_unfree)->Some_0.0;
    if i == e.len() - 1 {
        match part_for(e[i].0, e[i].1, aur, helper, nix_as_config, with_unfree) {
            Part::Command(c) => {
                assert(segs[segs0.len() as int] == c);
            },
            Part::Config(c) => {
                lemma_infix_self(c);
                lemma_infix_after(cfg0, c, c);
            },
            Part::Fail => {},
        }
    } else {
        lemma_compose_keeps_part(e.drop_last(), aur, helper, nix_as_config, with_unfree, i);
        assert(e.drop_last()[i] == e[i]);
        match part_for(e[i].0, e[i].1, aur, helper, nix_as_config, with_unfree) {
            Part::Command(c) => {
                let k = choose|k: int| 0 <= k < segs0.len() && segs0[k] == c;
                assert(segs[k] == segs0[k]);
            },
            Part::Config(c) => {
                match part_for(e.last().0, e.last().1, aur, helper, nix_as_config, with_unfree) {
                    Part::Config(x) => {
                        lemma_infix_before(cfg0, x, c);
                    },
                    _ => {},
                }
            },
            Part::Fail => {},
        }
    }
}

/// Every handle of every target is installed: it occurs in the installation
/// command (a Homebrew cask by its name without `--cask `), or, for Nix
/// packages shown as configuration, in the configuration lines.
pub proof fn lemma_compose_installs_every_handle(
    e: Seq<(SupportedTarget, Seq<Seq<char>>)>,
    aur: Seq<Seq<char>>,
    helper: Option<Seq<char>>,
    nix_as_config: bool,
    with_unfree: bool,
    i: int,
    j: int,
)
    requires
        compose(e, aur, helper, nix_as_config, with_unfree) is Some,
        0 <= i < e.len(),
        0 <= j < e[i].1.len(),
    ensures
        ({
            let segs = compose(e, aur, helper, nix_as_config, with_unfree)->Some_0.0;
            let cfg = compose(e, aur, helper, nix_as_config, with_unfree)->Some_0.1;
            if e[i].0 == SupportedTarget::Nix && nix_as_config {
                has_infix(cfg, e[i].1[j])
            } else {
                has_infix(join(segs, " && "@), installed_name(e[i].0, e[i].1[j]))
            }
        }),
{
    let segs = compose(e, aur, helper, nix_as_config, with_unfree)->Some_0.0;
    lemma_part_has_handle(e[i].0, e[i].1, aur, helper, nix_as_config, with_unfree, j);
    lemma_compose_keeps_part(e, aur, helper, nix_as_config, with_unfree, i);
    match part_for(e[i].0, e[i].1, aur, helper, nix_as_config, with_unfree) {
        Part::Command(c) => {
            let k = choose|k: int| 0 <= k < segs.len() && segs[k] == c;
            lemma_join_has_part(segs, " && "@, k);
            lemma_infix_trans(join(segs, " && "@), c, installed_name(e[i].0, e[i].1[j]));
        },
        Part::Config(c) => {
            let cfg = compose(e, aur, helper, nix_as_config, with_unfree)->Some_0.1;
            lemma_infix_trans(cfg, c, e[i].1[j]);
        },
        Part::Fail => {},
    }
}

/// With each target stored once, the configuration text is the Nix
/// configuration of the Nix handles when Nix packages are shown as
/// configuration, and empty otherwise.
pub proof fn lemma_compose_config(
    e: Seq<(SupportedTarget, Seq<Seq<char>>)>,
    aur: Seq<Seq<char>>,
    helper: Option<Seq<char>>,
    nix_as_config: bool,
    with_unfree: bool,
)
    requires
        distinct_keys(e),
        compose(e, aur, helper, nix_as_config, with_unfree) is Some,
    ensures
        compose(e, aur, helper, nix_as_config, with_unfree)->Some_0.1 == if nix_as_config && lookup(
            e,
            SupportedTarget::Nix,
        ) is Some {
            nix_config(handles_for(e, SupportedTarget::Nix), with_unfree)
        } else {
            Seq::<char>::empty()
        },
    decreases e.len(),
{
    if e.len() > 0 {
        let d = e.drop_last();
        assert(distinct_keys(d));
        lemma_compose_config(d, aur, helper, nix_as_config, with_unfree);
        crate::target_map::lemma_key_index(d, SupportedTarget::Nix);
        if e.last().0 == SupportedTarget::Nix {
            assert forall|m: int| 0 <= m < d.len() implies d[m].0 != SupportedTarget::Nix by {
                assert(e[m].0 != e[e.len() - 1].0);
            }
            if nix_as_config {
                let c = nix_config(e.last().1, with_unfree);
                assert(Seq::<char>::empty() + c =~= c);
            }
        }
    }
}

/// With each target stored once, the only command to run before installing
/// is the installation of the chosen AUR helper, and only when AUR packages
/// are to be installed on an Arch host that has no AUR helper.
pub proof fn lemma_dependencies_at_most_helper(
    e: Seq<(SupportedTarget, Seq<Seq<char>>)>,
    host: DistroInfo,
    has_aur_packages: bool,
    install_helper: bool,
    helper: Option<Seq<char>>,
)
    requires
        distinct_keys(e),
        dependencies(keys_of(e), host, has_aur_packages, install_helper, helper) is Ok,
    ensures
        dependencies(keys_of(e), host, has_aur_packages, install_helper, helper) == Ok::<
            Seq<Seq<char>>,
            DependencyError,
        >(
            if lookup(e, SupportedTarget::Arch) is Some && has_aur_packages && !host.has_aur {
                seq![aur_helper_install_command(helper->Some_0)]
            } else {
                Seq::empty()
            },
        ),
    decreases e.len(),
{
    if e.len() > 0 {
        let d = e.drop_last();
        assert(distinct_keys(d));
        assert(keys_of(e).drop_last() =~= keys_of(d));
        lemma_dependencies_at_most_helper(d, host, has_aur_packages, install_helper, helper);
        crate::target_map::lemma_key_index(d, SupportedTarget::Arch);
        if e.last().0 == SupportedTarget::Arch {
            assert forall|m: int| 0 <= m < d.len() implies d[m].0 != SupportedTarget::Arch by {
                assert(e[m].0 != e[e.len() - 1].0);
            }
        }
    }
}

/// The list views of a map after an append, seen as handle sequences.
proof fn lemma_views_inserted(lv: Seq<(SupportedTarget, Seq<String>)>, t: SupportedTarget, h: String)
    ensures
        ({
            let pv = Seq::new(lv.len(), |i: int| (lv[i].0, views(lv[i].1)));
            let new_l = match lookup(lv, t) {
                Some(l) => l.push(h),
                None => seq![h],
            };
            let nv = inserted(lv, t, new_l);
            Seq::new(nv.len(), |i: int| (nv[i].0, views(nv[i].1))) == inserted(
                pv,
                t,
                handles_for(pv, t).push(h@),
            )
        }),
{
    let pv = Seq::new(lv.len(), |i: int| (lv[i].0, views(lv[i].1)));
    assert(crate::target_map::keys_of(lv) =~= crate::target_map::keys_of(pv));
    crate::target_map::lemma_key_index_keys(lv, pv, t);
    crate::target_map::lemma_key_index(lv, t);
    let new_l = match lookup(lv, t) {
        Some(l) => l.push(h),
        None => seq![h],
    };
    let nv = inserted(lv, t, new_l);
    match lookup(lv, t) {
        Some(l) => {
            assert(views(l.push(h)) =~= views(l).push(h@));
        },
        None => {
            assert(views(seq![h]) =~= Seq::<Seq<char>>::empty().push(h@));
        },
    }
    assert(Seq::new(nv.len(), |i: int| (nv[i].0, views(nv[i].1))) =~= inserted(
        pv,
        t,
        handles_for(pv, t).push(h@),
    ));
}

} // verus!
