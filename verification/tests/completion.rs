use std::collections::HashSet;

use myshell::completion::{
    CommandCompletion, Complete, Completer, DirEntry, FileCompletion, StaticWordCompletion,
};

fn set_eq(a: Vec<String>, b: Vec<&str>) {
    let a: HashSet<String> = a.into_iter().collect();
    let b: HashSet<String> = b.into_iter().map(String::from).collect();
    assert_eq!(a, b);
}

fn words(list: &[&str]) -> Vec<String> {
    list.iter().map(|s| s.to_string()).collect()
}

#[test]
fn static_word_completion() {
    let comp = StaticWordCompletion::new(vec![
        "foo".into(),
        "foobar".into(),
        "fox".into(),
        "bar".into(),
    ]);
    set_eq(comp.candidates(&["fo"]), vec!["o", "obar", "x"]);
    set_eq(comp.candidates(&["foo"]), vec!["", "bar"]);
    set_eq(comp.candidates(&["bar"]), vec![""]);
    set_eq(comp.candidates(&["ba"]), vec!["r"]);

    // containing space
    let comp = StaticWordCompletion::new(vec!["foo bar".into()]);
    set_eq(comp.candidates(&["fo"]), vec!["o bar"]);
    set_eq(comp.candidates(&["foo b"]), vec!["ar"]);

    // empty
    let comp = StaticWordCompletion::new(vec![]);
    set_eq(comp.candidates(&["foo"]), vec![]);
    set_eq(comp.candidates(&["bar"]), vec![]);
}

#[test]
fn static_word_completion_keeps_order_and_duplicates() {
    let comp = StaticWordCompletion::new(words(&["ab", "b", "ab", "abc"]));
    assert_eq!(comp.candidates(&["a"]), vec!["b", "b", "bc"]);
    assert_eq!(comp.candidates(&["x", "a"]), vec!["b", "b", "bc"]);
    assert!(comp.candidates(&[]).is_empty());
}

fn entry(name: &str, is_dir: bool) -> DirEntry {
    DirEntry { name: name.to_string(), is_dir }
}

fn listed(dir: &str, entries: Vec<DirEntry>) -> FileCompletion {
    let mut comp = FileCompletion::new();
    comp.set_dirs(Some("/home/me".to_string()), Some("/tmp/shell-test".to_string()));
    comp.set_listing(dir.to_string(), entries);
    comp
}

#[test]
fn file_completion_from_listing() {
    let comp = listed(
        "/tmp/shell-test/",
        vec![entry("foo", false), entry("foobar", false), entry("dir", true)],
    );
    set_eq(comp.candidates(&["foo"]), vec!["", "bar"]);
    set_eq(comp.candidates(&["f"]), vec!["oo", "oobar"]);
    set_eq(comp.candidates(&[""]), vec!["foo", "foobar", "dir"]);
    set_eq(comp.candidates(&["d"]), vec!["ir/"]);

    let comp = listed(
        "/tmp/shell-test/",
        vec![entry("dup1", true), entry("dup2", true), entry("uniq", true)],
    );
    set_eq(comp.candidates(&["d"]), vec!["up1", "up2"]);
    set_eq(comp.candidates(&["u"]), vec!["niq/"]);
}

#[test]
fn file_completion_without_listing_is_empty() {
    let comp = FileCompletion::new();
    assert!(comp.candidates(&["f"]).is_empty());
    assert!(comp.find("f").is_none());
    let comp = listed("/elsewhere/", vec![entry("foo", false)]);
    assert!(comp.candidates(&["f"]).is_empty());
    assert!(comp.candidates(&[]).is_empty());
}

#[test]
fn file_query_splits_directory_and_pattern() {
    let mut comp = FileCompletion::new();
    comp.set_dirs(Some("/home/me".to_string()), Some("/work".to_string()));
    let q = comp.query("src/ma").unwrap();
    assert_eq!((q.dir.as_str(), q.pattern.as_str()), ("/work/src/", "ma"));
    let q = comp.query("").unwrap();
    assert_eq!((q.dir.as_str(), q.pattern.as_str()), ("/work/", ""));
    let q = comp.query("/etc/pas").unwrap();
    assert_eq!((q.dir.as_str(), q.pattern.as_str()), ("/etc/", "pas"));
    let q = comp.query("/etc/").unwrap();
    assert_eq!((q.dir.as_str(), q.pattern.as_str()), ("/etc/", ""));
    let q = comp.query("~/.conf").unwrap();
    assert_eq!((q.dir.as_str(), q.pattern.as_str()), ("/home/me/", ".conf"));
}

#[test]
fn file_query_needs_home_and_cwd() {
    let mut comp = FileCompletion::new();
    assert!(comp.query("~/x").is_none());
    assert!(comp.query("x").is_none());
    assert!(comp.query("/x").is_some());
    comp.set_dirs(None, Some("/work".to_string()));
    assert!(comp.query("~/x").is_none());
    assert!(comp.query("x").is_some());
}

#[test]
fn escape_special_characters_examples() {
    assert_eq!(FileCompletion::escape_special_characters("foo bar"), "foo\\ bar");
    assert_eq!(FileCompletion::escape_special_characters("foo@bar"), "foo\\@bar");
    assert_eq!(FileCompletion::escape_special_characters("plain-name_1.txt"), "plain-name_1.txt");
    assert_eq!(
        FileCompletion::escape_special_characters("\\ \t\n@;&|$()[]'\"=?{}"),
        "\\\\\\ \\\t\\\n\\@\\;\\&\\|\\$\\(\\)\\[\\]\\'\\\"\\=\\?\\{\\}"
    );
    assert_eq!(FileCompletion::escape_special_characters("a*b"), "a*b");
}

#[test]
fn file_completion_escapes_candidates() {
    let comp = listed("/tmp/shell-test/", vec![entry("my file", false), entry("my$", false)]);
    set_eq(comp.candidates(&["my"]), vec!["\\ file", "\\$"]);
    assert_eq!(
        FileCompletion::select("a", &vec![entry("a b", true)]),
        vec!["\\ b/".to_string()]
    );
}

#[test]
fn command_completion_dispatch() {
    let files = listed("/tmp/shell-test/", vec![entry("notes", false)]);
    let mut comp = CommandCompletion::new(words(&["ls", "less", "cat"]), Completer::Files(files));
    set_eq(comp.candidates(&["l"]), vec!["s", "ess"]);
    assert!(comp.candidates(&[]).is_empty());
    // more than one word and no rule: the fallback
    set_eq(comp.candidates(&["cat", "no"]), vec!["tes"]);
    // a rule for the command
    comp.add_completion(
        "git".to_string(),
        Completer::Words(StaticWordCompletion::new(words(&["commit", "clone"]))),
    );
    set_eq(comp.candidates(&["git", "c"]), vec!["ommit", "lone"]);
    // a second rule for the same command replaces the first
    comp.add_completion(
        "git".to_string(),
        Completer::Words(StaticWordCompletion::new(words(&["checkout"]))),
    );
    set_eq(comp.candidates(&["git", "c"]), vec!["heckout"]);
}

#[test]
fn command_completion_update_commands() {
    let mut comp =
        CommandCompletion::new(Vec::new(), Completer::Words(StaticWordCompletion::new(vec![])));
    assert!(comp.candidates(&["l"]).is_empty());
    comp.update_commands(words(&["ls", "ln"]));
    set_eq(comp.candidates(&["l"]), vec!["s", "n"]);
    set_eq(comp.candidates(&["sudo", "l"]), vec!["s", "n"]);
    comp.update_commands(words(&["make"]));
    set_eq(comp.candidates(&["sudo", "m"]), vec!["ake"]);
    assert!(comp.candidates(&["sudo", "l"]).is_empty());
}
