use pihole_sync::pihole::client::Group;
use pihole_sync::sync::groups::{normalize_groups, sync_groups, GroupAction};

fn group(name: &str, comment: Option<&str>, enabled: bool, id: Option<u32>) -> Group {
    Group { name: name.to_string(), comment: comment.map(|c| c.to_string()), enabled, id }
}

fn apply(secondary: &mut Vec<Group>, plan: &[GroupAction]) {
    for action in plan {
        match action {
            GroupAction::Create(g) => {
                let mut created = g.clone();
                created.id = Some(100 + secondary.len() as u32);
                secondary.push(created);
            }
            GroupAction::Update(g) => {
                for existing in secondary.iter_mut() {
                    if existing.name == g.name {
                        existing.comment = g.comment.clone();
                        existing.enabled = g.enabled;
                    }
                }
            }
        }
    }
}

#[test]
fn first_pass_creates_and_second_pass_creates_nothing() {
    let main = vec![group("A", None, true, Some(1))];
    let mut secondary: Vec<Group> = vec![];
    let plan = sync_groups(&main, &secondary);
    assert_eq!(plan.len(), 1);
    match &plan[0] {
        GroupAction::Create(g) => {
            assert_eq!(g.name, "A");
            assert!(g.enabled);
            assert_eq!(g.comment, None);
        }
        other => panic!("expected a creation, got {:?}", other),
    }
    apply(&mut secondary, &plan);
    assert!(sync_groups(&main, &secondary).is_empty());
}

#[test]
fn group_reconciliation_converges() {
    let main = vec![
        group("A", Some("first"), true, Some(1)),
        group("B", None, false, Some(2)),
        group("C", Some("third"), true, Some(3)),
    ];
    let mut secondary = vec![
        group("B", Some("stale"), true, Some(9)),
        group("C", Some("third"), true, Some(4)),
        group("Z", None, true, Some(5)),
    ];
    let plan = sync_groups(&main, &secondary);
    assert_eq!(plan.len(), 2);
    assert!(matches!(&plan[0], GroupAction::Create(g) if g.name == "A"));
    assert!(matches!(&plan[1], GroupAction::Update(g) if g.name == "B" && !g.enabled && g.comment.is_none()));
    apply(&mut secondary, &plan);
    assert!(sync_groups(&main, &secondary).is_empty());
    assert!(secondary.iter().any(|g| g.name == "Z"));
}

#[test]
fn a_changed_flag_gives_one_update_for_that_group() {
    let mut main = vec![
        group("A", None, true, Some(1)),
        group("B", None, true, Some(2)),
        group("C", None, true, Some(3)),
    ];
    let mut secondary: Vec<Group> = vec![];
    let plan = sync_groups(&main, &secondary);
    apply(&mut secondary, &plan);
    assert!(sync_groups(&main, &secondary).is_empty());
    main[1].enabled = false;
    let plan = sync_groups(&main, &secondary);
    assert_eq!(plan.len(), 1);
    assert!(matches!(&plan[0], GroupAction::Update(g) if g.name == "B" && !g.enabled));
}

#[test]
fn ids_do_not_count_for_groups() {
    let main = vec![group("A", Some("c"), true, Some(1))];
    let secondary = vec![group("A", Some("c"), true, Some(42))];
    assert!(sync_groups(&main, &secondary).is_empty());
}

#[test]
fn a_changed_comment_gives_an_update() {
    let main = vec![group("A", Some("new"), true, Some(1))];
    let secondary = vec![group("A", None, true, Some(1))];
    let plan = sync_groups(&main, &secondary);
    assert_eq!(plan.len(), 1);
    assert!(matches!(&plan[0], GroupAction::Update(g) if g.comment.as_deref() == Some("new")));
}

#[test]
fn groups_of_the_secondary_alone_are_left() {
    let main: Vec<Group> = vec![];
    let secondary = vec![group("only-here", None, true, Some(1))];
    assert!(sync_groups(&main, &secondary).is_empty());
}

#[test]
fn normalized_groups_are_sorted_by_name() {
    let groups = vec![
        group("beta", Some("b"), false, Some(2)),
        group("alpha", None, true, Some(1)),
        group("Gamma", None, true, None),
        group("alpha", Some("second"), false, Some(7)),
    ];
    let normalized = normalize_groups(&groups);
    let names: Vec<&str> = normalized.iter().map(|g| g.name).collect();
    assert_eq!(names, vec!["Gamma", "alpha", "alpha", "beta"]);
    assert_eq!(normalized[1].comment, &None);
    assert_eq!(normalized[2].comment, &Some("second".to_string()));
    assert!(normalized[1].enabled);
    assert!(!normalized[3].enabled);
}

#[test]
fn normalized_groups_of_an_empty_list() {
    assert!(normalize_groups(&[]).is_empty());
}
