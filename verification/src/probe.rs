//! Checks of a package handle against the registry's lists of AUR packages,
//! unfree Nix packages and verified Flathub and Snap applications.
use vstd::prelude::*;
use crate::registry::{KnownPackages, VerifiedApps};
use crate::text::{
    all_ascii, ascii_lower, before_first, occurs_at, lemma_first_index_at, lemma_first_index_none, ends_with, has_infix, has_suffix, lowercase, trim,
    trimmed, to_lowercase, vec_contains, views, contains, find_char,
};

verus! {

/// The name endings that mark an AUR package.
pub open spec fn aur_suffixes() -> Seq<Seq<char>> {
    seq!["-git"@, "-bin"@, "-appimage"@]
}

/// A package is from the AUR when its name ends with an AUR suffix or it is
/// on the list of known AUR packages.
pub open spec fn spec_is_aur(name: Seq<char>, known: Seq<Seq<char>>) -> bool {
    (exists|i: int| 0 <= i < aur_suffixes().len() && has_suffix(name, #[trigger] aur_suffixes()[i]))
        || known.contains(name)
}

/// A cleaned package name is unfree when it is on the list, or some entry
/// of the list occurs in it.
pub open spec fn spec_is_unfree(clean: Seq<char>, known: Seq<Seq<char>>) -> bool {
    known.contains(clean) || exists|i: int| 0 <= i < known.len() && has_infix(clean, #[trigger] known[i])
}

/// The outcome of the AUR check on a handle, given the list as loaded.
pub open spec fn aur_check(name: Seq<char>, known: Option<KnownPackages>) -> bool {
    match known {
        Some(k) => spec_is_aur(name, views(k.packages@)),
        None => false,
    }
}

/// The outcome of the unfree Nix check on a handle, given the list as loaded.
pub open spec fn unfree_check(name: Seq<char>, known: Option<KnownPackages>) -> bool {
    match known {
        Some(k) => spec_is_unfree(lowercase(trimmed(name)), views(k.packages@)),
        None => false,
    }
}

/// The outcome of the Flathub check on an identifier, given the list as loaded.
pub open spec fn flathub_check(name: Seq<char>, verified: Option<VerifiedApps>) -> bool {
    match verified {
        Some(v) => views(v.apps@).contains(name),
        None => false,
    }
}

/// The outcome of the Snap check on a handle, given the list as loaded.
pub open spec fn snap_check(name: Seq<char>, verified: Option<VerifiedApps>) -> bool {
    match verified {
        Some(v) => views(v.apps@).contains(before_first(name, ' ')),
        None => false,
    }
}

/// Once the list of known AUR packages is loaded, every name with an AUR
/// suffix, and every name on the list, is taken for an AUR package; without
/// the list nothing is.
pub proof fn lemma_aur_rules(name: Seq<char>, known: Option<KnownPackages>, i: int)
    ensures
        known is Some && 0 <= i < 3 && has_suffix(name, aur_suffixes()[i]) ==> aur_check(name, known),
        known matches Some(k) && views(k.packages@).contains(name) ==> aur_check(name, known),
        known is None ==> !aur_check(name, known),
        known is Some && (has_suffix(name, "-git"@) || has_suffix(name, "-bin"@) || has_suffix(name, "-appimage"@))
            ==> aur_check(name, known),
        aur_check(name, known) ==> (known matches Some(k) && (has_suffix(name, "-git"@) || has_suffix(name, "-bin"@)
            || has_suffix(name, "-appimage"@) || views(k.packages@).contains(name))),
{
    assert(aur_suffixes()[0] == "-git"@);
    assert(aur_suffixes()[1] == "-bin"@);
    assert(aur_suffixes()[2] == "-appimage"@);
}

/// With the list of verified applications loaded, a Flathub identifier is
/// verified exactly when it is on the list, and a Snap handle exactly when
/// its first word (the part before its first space, all of it when it has
/// none) is on the list; without the list nothing is verified.
pub proof fn lemma_verified_rules(name: Seq<char>, verified: Option<VerifiedApps>, word: Seq<char>, rest: Seq<char>)
    ensures
        flathub_check(name, verified) <==> (verified matches Some(v) && views(v.apps@).contains(name)),
        (forall|i: int| 0 <= i < word.len() ==> word[i] != ' ') ==> (snap_check(word + seq![' '] + rest, verified)
            <==> (verified matches Some(v) && views(v.apps@).contains(word))),
        (forall|i: int| 0 <= i < name.len() ==> name[i] != ' ') ==> (snap_check(name, verified)
            <==> (verified matches Some(v) && views(v.apps@).contains(name))),
{
    let s = word + seq![' '] + rest;
    if forall|i: int| 0 <= i < word.len() ==> word[i] != ' ' {
        assert(s[word.len() as int] == ' ');
        assert forall|j: int| 0 <= j < word.len() implies s[j] != ' ' by {
            assert(s[j] == word[j]);
        }
        lemma_first_index_at(s, ' ', word.len() as int);
        assert(s.take(word.len() as int) =~= word);
    }
    if forall|i: int| 0 <= i < name.len() ==> name[i] != ' ' {
        lemma_first_index_none(name, ' ');
    }
}

/// With the list of unfree packages loaded, a Nix handle is unfree exactly
/// when some entry of the list occurs somewhere (at any position) in the
/// handle trimmed and lowercased; without the list no handle is unfree.
pub proof fn lemma_unfree_rules(name: Seq<char>, known: Option<KnownPackages>, i: int, pos: int)
    ensures
        known matches Some(k) && 0 <= i < k.packages@.len() && occurs_at(
            lowercase(trimmed(name)),
            k.packages@[i]@,
            pos,
        ) ==> unfree_check(name, known),
        unfree_check(name, known) ==> (known matches Some(k) && exists|j: int, q: int|
            0 <= j < k.packages@.len() && #[trigger] occurs_at(lowercase(trimmed(name)), k.packages@[j]@, q)),
        known is None ==> !unfree_check(name, known),
{
    let clean = lowercase(trimmed(name));
    if let Some(k) = known {
        let list = views(k.packages@);
        if 0 <= i < k.packages@.len() && occurs_at(clean, k.packages@[i]@, pos) {
            assert(list[i] == k.packages@[i]@);
            assert(has_infix(clean, list[i]));
        }
        if unfree_check(name, known) {
            if list.contains(clean) {
                let j = choose|j: int| 0 <= j < list.len() && list[j] == clean;
                assert(clean.subrange(0, clean.len() as int) =~= clean);
                assert(occurs_at(clean, k.packages@[j]@, 0));
            } else {
                let j = choose|j: int| 0 <= j < list.len() && has_infix(clean, #[trigger] list[j]);
                let q = choose|q: int| occurs_at(clean, list[j], q);
                assert(occurs_at(clean, k.packages@[j]@, q));
            }
        }
    }
}

/// Whether a package handle is from the AUR. Without the list of known AUR
/// packages (`None`: it could not be loaded) the answer is `false`.
pub fn is_aur_package(package_name: &str, known: &Option<KnownPackages>) -> (res: bool)
    ensures
        res == aur_check(package_name@, *known),
{
    let known_packages = match known {
        Some(k) => &k.packages,
        None => return false,
    };
    let suffixes: [&str; 3] = ["-git", "-bin", "-appimage"];
    let mut i: usize = 0;
    while i < 3
        invariant
            i <= 3,
            known matches Some(k) && k.packages@ == known_packages@,
            suffixes@.len() == 3,
            forall|j: int| 0 <= j < 3 ==> #[trigger] suffixes@[j]@ == aur_suffixes()[j],
            forall|j: int| 0 <= j < i ==> !has_suffix(package_name@, #[trigger] aur_suffixes()[j]),
        decreases 3 - i,
    {
        if ends_with(package_name, suffixes[i]) {
            assert(has_suffix(package_name@, aur_suffixes()[i as int]));
            assert(spec_is_aur(package_name@, views(known_packages@)));
            return true;
        }
        i = i + 1;
    }
    vec_contains(known_packages, package_name)
}

/// Whether a Nix package handle is unfree: the handle, trimmed and
/// lowercased, is on the list of known unfree packages or holds one of them.
/// Without the list (`None`) the answer is `false`.
pub fn is_unfree_nix_package(package_name: &str, known: &Option<KnownPackages>) -> (res: bool)
    ensures
        res == unfree_check(package_name@, *known),
        all_ascii(trimmed(package_name@)) ==> res == match known {
            Some(k) => spec_is_unfree(ascii_lower(trimmed(package_name@)), views(k.packages@)),
            None => false,
        },
{
    let list = match known {
        Some(k) => &k.packages,
        None => return false,
    };
    let clean = to_lowercase(trim(package_name));
    if vec_contains(list, clean.as_str()) {
        return true;
    }
    let mut i: usize = 0;
    while i < list.len()
        invariant
            i <= list.len(),
            known matches Some(k) && k.packages@ == list@,
            clean@ == lowercase(trimmed(package_name@)),
            all_ascii(trimmed(package_name@)) ==> clean@ == ascii_lower(trimmed(package_name@)),
            forall|j: int| 0 <= j < i ==> !has_infix(clean@, #[trigger] views(list@)[j]),
        decreases list.len() - i,
    {
        assert(views(list@)[i as int] == list@[i as int]@);
        if contains(clean.as_str(), list[i].as_str()) {
            assert(spec_is_unfree(clean@, views(list@)));
            return true;
        }
        i = i + 1;
    }
    false
}

/// Whether a Flathub application identifier is verified. Without the list
/// (`None`) the answer is `false`.
pub fn is_flathub_verified(package_name: &str, verified: &Option<VerifiedApps>) -> (res: bool)
    ensures
        res == flathub_check(package_name@, *verified),
{
    match verified {
        Some(v) => vec_contains(&v.apps, package_name),
        None => false,
    }
}

/// Whether a Snap package is verified: the part of the handle before its
/// first space (options may follow) is on the list. Without the list
/// (`None`) the answer is `false`.
pub fn is_snap_verified(package_name: &str, verified: &Option<VerifiedApps>) -> (res: bool)
    ensures
        res == snap_check(package_name@, *verified),
{
    let apps = match verified {
        Some(v) => &v.apps,
        None => return false,
    };
    let clean = match find_char(package_name, ' ') {
        Some(i) => package_name.substring_char(0, i),
        None => package_name,
    };
    assert(clean@ =~= before_first(package_name@, ' '));
    vec_contains(apps, clean)
}

} // verus!
