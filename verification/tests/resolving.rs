use usnrs::resolve::{choose_name, trusts};

fn s(text: &str) -> String {
    text.to_string()
}

#[test]
fn differing_best_name_keeps_the_embedded_name() {
    let name = choose_name(s("old.txt"), Some(s("new.txt")), Some(s("dir/new.txt")));
    assert_eq!(name, "old.txt");
    let name = choose_name(s("old.txt"), Some(s("OLD.TXT")), Some(s("dir/OLD.TXT")));
    assert_eq!(name, "old.txt");
    let name = choose_name(s("old.txt"), Some(s("old.txt ")), Some(s("dir/old.txt")));
    assert_eq!(name, "old.txt");
}

#[test]
fn agreeing_best_name_gives_the_full_path() {
    let name = choose_name(s("old.txt"), Some(s("old.txt")), Some(s("dir/sub/old.txt")));
    assert_eq!(name, "dir/sub/old.txt");
}

#[test]
fn missing_answers_keep_the_embedded_name() {
    assert_eq!(choose_name(s("old.txt"), None, Some(s("dir/old.txt"))), "old.txt");
    assert_eq!(choose_name(s("old.txt"), Some(s("old.txt")), None), "old.txt");
    assert_eq!(choose_name(s("old.txt"), None, None), "old.txt");
    assert_eq!(choose_name(s(""), None, Some(s("dir"))), "");
    assert_eq!(choose_name(s(""), Some(s("")), Some(s("dir"))), "dir");
}

#[test]
fn trust_needs_an_exact_match() {
    assert!(trusts(&s("a.txt"), &Some(s("a.txt"))));
    assert!(!trusts(&s("a.txt"), &Some(s("A.txt"))));
    assert!(!trusts(&s("a.txt"), &Some(s("a.tx"))));
    assert!(!trusts(&s("a.txt"), &None));
    assert!(!trusts(&s(""), &None));
}
