use pihole_sync::pihole::client::{Group, List};
use pihole_sync::sync::lists::{
    build_group_lookup, groups_for_list, lists_equal, normalize_lists, sync_lists,
    unresolved_groups, ListAction,
};

fn group(name: &str, id: Option<u32>) -> Group {
    Group { name: name.to_string(), comment: None, enabled: true, id }
}

fn list(address: &str, list_type: &str, groups: Vec<u32>) -> List {
    List {
        address: address.to_string(),
        list_type: list_type.to_string(),
        comment: None,
        groups,
        enabled: true,
        id: None,
    }
}

fn apply(secondary: &mut Vec<List>, plan: &[ListAction]) {
    for action in plan {
        match action {
            ListAction::Create(l) => secondary.push(l.clone()),
            ListAction::Update(l) => {
                for existing in secondary.iter_mut() {
                    if existing.address == l.address && existing.list_type == l.list_type {
                        existing.comment = l.comment.clone();
                        existing.enabled = l.enabled;
                        existing.groups = l.groups.clone();
                    }
                }
            }
        }
    }
}

#[test]
fn membership_goes_by_group_name() {
    let main_groups = vec![group("Default", Some(0)), group("Family", Some(7))];
    let secondary_groups = vec![group("Default", Some(0)), group("Family", Some(3))];
    let lookup = build_group_lookup(&main_groups);
    let main_list = list("https://example.com/a.txt", "block", vec![7]);
    let ids = groups_for_list(&main_list, &lookup, &secondary_groups, true);
    assert_eq!(ids, vec![3]);
}

#[test]
fn membership_keeps_an_id_only_where_the_names_agree() {
    let main_groups = vec![group("Default", Some(0)), group("Family", Some(7))];
    let secondary_groups = vec![group("Default", Some(0)), group("Family", Some(7))];
    let lookup = build_group_lookup(&main_groups);
    let main_list = list("a", "block", vec![7]);
    assert_eq!(groups_for_list(&main_list, &lookup, &secondary_groups, true), vec![7]);
    let other_secondary = vec![group("Default", Some(0)), group("Kids", Some(7))];
    assert_eq!(groups_for_list(&main_list, &lookup, &other_secondary, true), vec![0]);
}

#[test]
fn groups_are_sorted_and_without_duplicates() {
    let main_groups = vec![
        group("Default", Some(0)),
        group("A", Some(1)),
        group("B", Some(2)),
        group("C", Some(3)),
    ];
    let secondary_groups = vec![
        group("Default", Some(0)),
        group("A", Some(30)),
        group("B", Some(10)),
        group("C", Some(10)),
    ];
    let lookup = build_group_lookup(&main_groups);
    let main_list = list("a", "block", vec![1, 2, 3, 0]);
    assert_eq!(groups_for_list(&main_list, &lookup, &secondary_groups, true), vec![0, 10, 30]);
}

#[test]
fn a_group_that_the_secondary_lacks_falls_to_the_default_group() {
    let main_groups = vec![group("Default", Some(0)), group("Family", Some(7))];
    let secondary_groups = vec![group("Default", Some(0))];
    let lookup = build_group_lookup(&main_groups);
    let main_list = list("a", "block", vec![7]);
    assert_eq!(groups_for_list(&main_list, &lookup, &secondary_groups, true), vec![0]);
}

#[test]
fn a_list_without_groups_is_in_the_default_group() {
    let main_groups = vec![group("Default", Some(0))];
    let secondary_groups = vec![group("Default", Some(0))];
    let lookup = build_group_lookup(&main_groups);
    let main_list = list("a", "block", vec![]);
    assert_eq!(groups_for_list(&main_list, &lookup, &secondary_groups, true), vec![0]);
    assert_eq!(groups_for_list(&main_list, &lookup, &secondary_groups, false), vec![0]);
}

#[test]
fn without_group_sync_a_grouped_list_goes_to_the_default_group() {
    let main_groups = vec![group("Default", Some(0)), group("Family", Some(7))];
    let secondary_groups = vec![group("Default", Some(0)), group("Family", Some(3))];
    let lookup = build_group_lookup(&main_groups);
    let main_list = list("a", "block", vec![0, 7]);
    assert_eq!(groups_for_list(&main_list, &lookup, &secondary_groups, false), vec![0]);
}

#[test]
fn a_group_unknown_on_main_is_looked_up_by_its_id_name() {
    let main_groups = vec![group("Default", Some(0))];
    let secondary_groups = vec![group("Default", Some(0)), group("id:12", Some(5))];
    let lookup = build_group_lookup(&main_groups);
    let main_list = list("a", "block", vec![12]);
    assert_eq!(groups_for_list(&main_list, &lookup, &secondary_groups, true), vec![5]);
}

#[test]
fn group_lookup_maps_ids_to_names() {
    let groups = vec![group("Default", Some(0)), group("NoId", None), group("Family", Some(7)), group("Later", Some(7))];
    let lookup = build_group_lookup(&groups);
    assert_eq!(lookup.len(), 2);
    assert_eq!(lookup.get(&0).map(|s| s.as_str()), Some("Default"));
    assert_eq!(lookup.get(&7).map(|s| s.as_str()), Some("Later"));
}

#[test]
fn lists_are_compared_by_comment_flag_and_group_set() {
    let mut target = list("a", "block", vec![1, 2]);
    let mut existing = list("a", "block", vec![2, 1]);
    assert!(lists_equal(&target, &existing));
    existing.groups = vec![2, 1, 1];
    assert!(lists_equal(&target, &existing));
    existing.groups = vec![2];
    assert!(!lists_equal(&target, &existing));
    existing.groups = vec![1, 2];
    existing.enabled = false;
    assert!(!lists_equal(&target, &existing));
    existing.enabled = true;
    existing.comment = Some("c".to_string());
    assert!(!lists_equal(&target, &existing));
    target.comment = Some("c".to_string());
    assert!(lists_equal(&target, &existing));
    target.groups = vec![0];
    existing.groups = vec![];
    assert!(lists_equal(&target, &existing));
}

#[test]
fn list_reconciliation_converges() {
    let main_groups = vec![group("Default", Some(0)), group("Family", Some(7))];
    let secondary_groups = vec![group("Default", Some(0)), group("Family", Some(3))];
    let lookup = build_group_lookup(&main_groups);
    let main_lists = vec![
        list("https://example.com/a.txt", "block", vec![7]),
        list("https://example.com/a.txt", "allow", vec![0]),
        list("https://example.com/b.txt", "block", vec![]),
    ];
    let mut secondary_lists = vec![list("https://example.com/a.txt", "block", vec![0])];
    let plan = sync_lists(&main_lists, &lookup, &secondary_groups, &secondary_lists, true);
    assert_eq!(plan.len(), 3);
    assert!(matches!(&plan[0], ListAction::Update(l) if l.list_type == "block" && l.groups == vec![3]));
    assert!(matches!(&plan[1], ListAction::Create(l) if l.list_type == "allow" && l.groups == vec![0]));
    assert!(matches!(&plan[2], ListAction::Create(l) if l.address.ends_with("b.txt") && l.groups == vec![0]));
    apply(&mut secondary_lists, &plan);
    let again = sync_lists(&main_lists, &lookup, &secondary_groups, &secondary_lists, true);
    assert!(again.is_empty());
}

#[test]
fn normalized_lists_name_their_groups_and_are_sorted() {
    let main_groups = vec![group("Default", Some(0)), group("Family", Some(7)), group("Adults", Some(8))];
    let lookup = build_group_lookup(&main_groups);
    let lists = vec![
        list("b", "block", vec![7, 8, 99]),
        list("a", "block", vec![]),
        list("a", "allow", vec![0]),
    ];
    let normalized = normalize_lists(&lists, &lookup);
    let keys: Vec<(&str, &str)> =
        normalized.iter().map(|l| (l.address.as_str(), l.list_type.as_str())).collect();
    assert_eq!(keys, vec![("a", "allow"), ("a", "block"), ("b", "block")]);
    assert_eq!(normalized[0].groups, vec!["Default"]);
    assert_eq!(normalized[1].groups, vec!["Default"]);
    assert_eq!(normalized[2].groups, vec!["Adults", "Family", "id:99"]);
}

#[test]
fn memberships_that_cannot_be_kept_are_named() {
    let main_groups = vec![group("Default", Some(0)), group("Family", Some(7)), group("Kids", Some(8))];
    let secondary_groups = vec![group("Default", Some(0)), group("Family", Some(3))];
    let lookup = build_group_lookup(&main_groups);
    let main_list = list("a", "block", vec![0, 7, 8, 99]);
    assert_eq!(unresolved_groups(&main_list, &lookup, &secondary_groups, true), vec![8, 99]);
    assert_eq!(unresolved_groups(&main_list, &lookup, &secondary_groups, false), vec![7, 8, 99]);
    let plain = list("a", "block", vec![]);
    assert_eq!(unresolved_groups(&plain, &lookup, &secondary_groups, false), Vec::<u32>::new());
}
