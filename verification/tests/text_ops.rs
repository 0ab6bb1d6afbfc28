use training_wheels::text::{find_first, remove_all, replace_first};

#[test]
fn find_first_reports_earliest_hit() {
    assert_eq!(find_first("hello", "ll"), Some(2));
    assert_eq!(find_first("ababab", "ab"), Some(0));
    assert_eq!(find_first("ababab", "ba"), Some(1));
    assert_eq!(find_first("hello", "x"), None);
    assert_eq!(find_first("", "x"), None);
}

#[test]
fn replace_first_replaces_only_the_first_occurrence() {
    assert_eq!(replace_first("abab", "ab", "X"), "Xab");
    assert_eq!(replace_first("aaa", "a", "bb"), "bbaa");
    assert_eq!(replace_first("body %slot% tail %slot%", "%slot%", "text"), "body text tail %slot%");
}

#[test]
fn replace_first_without_occurrence_is_identity() {
    assert_eq!(replace_first("abab", "cd", "X"), "abab");
    assert_eq!(replace_first("", "cd", "X"), "");
}

#[test]
fn replacement_may_reintroduce_the_pattern() {
    assert_eq!(replace_first("a%slot%b", "%slot%", "%slot%%slot%"), "a%slot%%slot%b");
}

#[test]
fn remove_all_deletes_every_occurrence() {
    assert_eq!(remove_all("%placeholder%x%placeholder%", "%placeholder%"), "x");
    assert_eq!(remove_all("%placeholder%%placeholder%", "%placeholder%"), "");
    assert_eq!(remove_all("aaaa", "aa"), "");
    assert_eq!(remove_all("abcabc", "b"), "acac");
}

#[test]
fn remove_all_is_stable_on_clean_text() {
    let clean = "int main()\n{\n    return 0;\n}\n";
    assert_eq!(remove_all(clean, "%placeholder%"), clean);
    assert_eq!(remove_all("", "%placeholder%"), "");
}

#[test]
fn remove_all_handles_occurrences_created_by_deletion() {
    assert_eq!(remove_all("a%pl%placeholder%aceholder%b", "%placeholder%"), "ab");
}
