use tuxmate_companion::text::{
    contains, ends_with, find_char, join_exec, join_prefixed, remove_all_exec, split_once_exec,
    starts_with, str_eq, to_lowercase, trim, trim_quotes, vec_contains,
};

#[test]
fn comparisons() {
    assert!(str_eq("abc", "abc"));
    assert!(!str_eq("abc", "abd"));
    assert!(starts_with("--cask firefox", "--cask"));
    assert!(!starts_with("-cask", "--cask"));
    assert!(ends_with("yay-bin", "-bin"));
    assert!(!ends_with("bin", "-bin"));
    assert!(contains("endeavouros", "arch") == false);
    assert!(contains("archlinux", "arch"));
    assert!(contains("x", ""));
    assert_eq!(find_char("a/b/c", '/'), Some(1));
    assert_eq!(find_char("abc", '/'), None);
}

#[test]
fn splitting_and_trimming() {
    assert_eq!(split_once_exec("arch/yay/extra", '/'), Some(("arch", "yay/extra")));
    assert_eq!(split_once_exec("plain", '/'), None);
    assert_eq!(trim("  \t x y \r\n"), "x y");
    assert_eq!(trim("\u{3000}wide\u{a0}"), "wide");
    assert_eq!(trim("   "), "");
    assert_eq!(trim_quotes("\"'v'\""), "v");
    assert_eq!(trim_quotes("\"a b\" "), "a b\" ");
}

#[test]
fn joining_and_removing() {
    let v = vec!["a".to_string(), "b".to_string(), "c".to_string()];
    assert_eq!(join_exec(&v, ", "), "a, b, c");
    assert_eq!(join_exec(&Vec::new(), ", "), "");
    assert_eq!(join_prefixed(&v, "p.", " "), "p.a p.b p.c");
    assert_eq!(remove_all_exec("--cask --cask x--cask y", "--cask "), "xy");
    assert_eq!(remove_all_exec("aaa", "aa"), "a");
    assert_eq!(remove_all_exec("firefox --cask", "--cask "), "firefox --cask");
    assert!(vec_contains(&v, "b"));
    assert!(!vec_contains(&v, "d"));
}

#[test]
fn lowercasing() {
    assert_eq!(to_lowercase("Arch LINUX"), "arch linux");
    assert_eq!(to_lowercase("ÉCOLE"), "école");
}
