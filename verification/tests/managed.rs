use vx::managed::{add_managed, dedupe_sorted, escape_string, load_managed, write_manifest};

fn listed(text: &str) -> Option<Vec<String>> {
    rune_cfg::RuneConfig::from_str(text).unwrap().get::<Vec<String>>("packages").ok()
}

fn names(v: &[&str]) -> Vec<String> {
    v.iter().map(|n| n.to_string()).collect()
}

#[test]
fn list_is_trimmed_sorted_and_without_repeats() {
    assert_eq!(
        dedupe_sorted(&names(&["zsh", " foo ", "", "bar", "foo", "   ", "Bar", "foo-git"])),
        names(&["Bar", "bar", "foo", "foo-git", "zsh"])
    );
    assert!(dedupe_sorted(&Vec::new()).is_empty());
    assert!(dedupe_sorted(&names(&["", " "])).is_empty());
}

#[test]
fn list_is_sorted_as_a_set_of_strings_is() {
    let input = names(&["b", "a", "é", "Z", "ab", "a b", "10", "9", "b", "a"]);
    let set: std::collections::BTreeSet<String> = input.iter().cloned().collect();
    let expected: Vec<String> = set.into_iter().collect();
    assert_eq!(dedupe_sorted(&input), expected);
}

#[test]
fn added_packages_merge_into_the_list() {
    assert_eq!(add_managed(&names(&["b", "d"]), &names(&["c", "a", "b"])), names(&["a", "b", "c", "d"]));
    assert_eq!(add_managed(&Vec::new(), &names(&["x"])), names(&["x"]));
    assert_eq!(add_managed(&names(&["x"]), &Vec::new()), names(&["x"]));
}

#[test]
fn quotes_and_backslashes_are_escaped() {
    assert_eq!(escape_string("plain"), "plain");
    assert_eq!(escape_string("a\"b"), "a\\\"b");
    assert_eq!(escape_string("a\\b"), "a\\\\b");
    assert_eq!(escape_string("\\\""), "\\\\\\\"");
    for s in ["", "x", "a\\\"b\\", "\"\""] {
        assert_eq!(escape_string(s), s.replace('\\', "\\\\").replace('"', "\\\""));
    }
}

#[test]
fn manifest_lists_the_packages() {
    assert_eq!(
        write_manifest(&names(&["foo", "q\"x"])),
        "@author \"vx\"\n@description \"Source packages managed by vx\"\n\npackages [\n  \"foo\"\n  \"q\\\"x\"\n]\n"
    );
    assert_eq!(
        write_manifest(&Vec::new()),
        "@author \"vx\"\n@description \"Source packages managed by vx\"\n\npackages [\n]\n"
    );
}

#[test]
fn manifest_reads_back_as_the_list() {
    let list = names(&["alpha", "foo-git", "zsh"]);
    let text = write_manifest(&list);
    assert_eq!(listed(&text), Some(list.clone()));
    assert_eq!(load_managed(listed(&text).as_ref()), list);
}

#[test]
fn missing_file_or_value_is_an_empty_list() {
    assert!(load_managed(None).is_empty());
    assert!(load_managed(listed("other \"x\"\n").as_ref()).is_empty());
    assert_eq!(
        load_managed(listed("packages [\n  \"b\"\n  \" a \"\n  \"b\"\n]\n").as_ref()),
        names(&["a", "b"])
    );
    assert_eq!(load_managed(Some(&names(&["z", "", "a", "z"]))), names(&["a", "z"]));
}
