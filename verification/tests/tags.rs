use kty::tags::{
    find_pos, find_tag_in_bank, get_tag_bank_as_tag_info, merge_person_tags, person_sort, poses,
    remove_redundant_tags, sort_tags, sort_tags_by_similar, tag_bank, tag_order, tags_are_subset,
};

fn to_string_vec(str_vec: &[&str]) -> Vec<String> {
    str_vec.iter().map(|s| (*s).to_string()).collect()
}

fn order_contains(order: &Vec<String>, tag: &str) -> bool {
    order.iter().any(|t| t == tag)
}

// Two tags outside the table keep their relative order: the canonical sort
// is stable on unranked tags.
#[test]
fn test_sort_tag() {
    let order = tag_order();
    let tag_not_found = "__sentinel";
    assert!(!order_contains(&order, tag_not_found));
    let mut received = to_string_vec(&[tag_not_found, "Gheg"]);
    let expected = to_string_vec(&[tag_not_found, "Gheg"]);
    sort_tags(&mut received, &order);
    assert_eq!(received, expected);
}

fn make_test_sort_tags_by_similar(received: &[&str], expected: &[&str]) {
    let mut vreceived: Vec<String> = to_string_vec(received);
    let vexpected: Vec<String> = to_string_vec(expected);
    sort_tags_by_similar(&mut vreceived);
    assert_eq!(vreceived, vexpected);
}

#[test]
fn test_sort_tags_by_similar1() {
    make_test_sort_tags_by_similar(&["singular", "accusative"], &["accusative", "singular"]);
}

#[test]
fn test_sort_tags_by_similar2() {
    make_test_sort_tags_by_similar(
        &["accusative", "singular", "neuter", "nominative", "vocative"],
        &["accusative", "neuter", "nominative", "singular", "vocative"],
    );
}

#[test]
fn test_sort_tags_by_similar3() {
    make_test_sort_tags_by_similar(
        &["dual nominative", "accusative dual", "dual vocative"],
        &["accusative dual", "dual nominative", "dual vocative"],
    );
}

fn make_test_merge_person_tags(received: &[&str], expected: &[&str]) {
    let order = tag_order();
    let vreceived: Vec<String> = to_string_vec(received);
    let received = merge_person_tags(&vreceived, &order);
    let vexpected: Vec<String> = to_string_vec(expected);
    assert_eq!(received, vexpected);
}

#[test]
fn test_merge_person_tags1() {
    make_test_merge_person_tags(
        &[
            "first-person singular present",
            "third-person singular present",
        ],
        &["first/third-person singular present"],
    );
}

#[test]
fn test_merge_person_tags2() {
    make_test_merge_person_tags(
        &[
            "first-person singular past",
            "second-person singular past",
            "third-person singular past",
        ],
        &["first/second/third-person singular past"],
    );
}

#[test]
fn test_remove_redundant_tags() {
    let mut received = to_string_vec(&["foo", "bar", "foo bar", "foo bar zee"]);
    let expected = to_string_vec(&["foo bar zee"]);
    remove_redundant_tags(&mut received);
    assert_eq!(received, expected);
}

#[test]
fn sort_tags_ranks_known_tags_first() {
    let order = tag_order();
    let mut tags = to_string_vec(&["Gheg", "present", "singular"]);
    sort_tags(&mut tags, &order);
    assert_eq!(tags, to_string_vec(&["singular", "present", "Gheg"]));
}

#[test]
fn sort_tags_empty_is_empty() {
    let order = tag_order();
    let mut tags: Vec<String> = Vec::new();
    sort_tags(&mut tags, &order);
    assert!(tags.is_empty());
}

#[test]
fn remove_redundant_keeps_equal_token_sets() {
    let mut tags = to_string_vec(&["foo bar", "bar foo"]);
    remove_redundant_tags(&mut tags);
    assert_eq!(tags, to_string_vec(&["foo bar", "bar foo"]));
}

#[test]
fn subset_is_token_based() {
    assert!(tags_are_subset("foo", "foo bar"));
    assert!(tags_are_subset("bar foo", "foo bar"));
    assert!(!tags_are_subset("foo bar", "foo"));
    assert!(!tags_are_subset("fo", "foo bar"));
}

#[test]
fn merge_keeps_multi_person_tags() {
    let order = tag_order();
    let tags = to_string_vec(&["first-person second-person plural", "third-person plural"]);
    let merged = merge_person_tags(&tags, &order);
    assert_eq!(
        merged,
        to_string_vec(&["first-person second-person plural", "third-person plural"])
    );
}

#[test]
fn merge_treats_person_markers_as_a_set() {
    // Two spellings of the same group member contribute one marker, not two.
    let order = tag_order();
    let tags = to_string_vec(&["first-person singular", "singular first-person"]);
    let merged = merge_person_tags(&tags, &order);
    assert_eq!(merged, to_string_vec(&["first-person singular"]));
}

#[test]
fn merge_without_person_tags_is_identity() {
    let order = tag_order();
    let tags = to_string_vec(&["singular", "present"]);
    assert_eq!(merge_person_tags(&tags, &order), tags);
}

#[test]
fn person_sort_orders_by_priority() {
    let mut persons = to_string_vec(&["third-person", "first-person", "second-person"]);
    person_sort(&mut persons);
    assert_eq!(
        persons,
        to_string_vec(&["first-person", "second-person", "third-person"])
    );
}

#[test]
fn find_tag_by_alias_gives_canonical_long_form() {
    let bank = tag_bank();
    let info = find_tag_in_bank("masculine", &bank).expect("alias should be known");
    assert_eq!(info.short_tag, "masc");
    assert_eq!(info.long_tag, "masculine");
    // A secondary alias still resolves to the canonical long form.
    let info = find_tag_in_bank("male", &bank).expect("alias should be known");
    assert_eq!(info.short_tag, "masc");
    assert_eq!(info.long_tag, "masculine");
    assert!(find_tag_in_bank("__sentinel", &bank).is_none());
}

#[test]
fn find_pos_gives_short_form() {
    let rows = poses();
    assert_eq!(find_pos("adverb", &rows).as_deref(), Some("adv"));
    assert_eq!(find_pos("adv", &rows).as_deref(), Some("adv"));
    assert!(find_pos("__sentinel", &rows).is_none());
}

#[test]
fn tag_bank_maps_to_tag_info() {
    let bank = tag_bank();
    let infos = get_tag_bank_as_tag_info(&bank);
    assert_eq!(infos.len(), bank.len());
    assert_eq!(infos[0].short_tag, bank[0].short_tag);
    assert_eq!(infos[0].long_tag, bank[0].aliases[0]);
}
