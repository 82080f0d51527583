use achiet::model::tag::TaggedItem;
use achiet::reconcile::{assign_ids, diff, reconcile, Reconciliation};
use achiet::util::new_ids;

fn item(id: &str, tag_id: &str, ref_id: &str, value: Option<&str>) -> TaggedItem {
    TaggedItem {
        id: id.to_string(),
        ref_id: ref_id.to_string(),
        tag_id: tag_id.to_string(),
        value: value.map(|v| v.to_string()),
    }
}

fn wanted(tag_id: &str, ref_id: &str, value: Option<&str>) -> TaggedItem {
    item("", tag_id, ref_id, value)
}

fn keys(items: &[TaggedItem]) -> Vec<(String, String)> {
    items.iter().map(|i| (i.tag_id.clone(), i.ref_id.clone())).collect()
}

#[test]
fn reconcile_with_itself_creates_and_deletes_nothing() {
    let existing = vec![
        item("i1", "t1", "b1", Some("x")),
        item("i2", "t2", "b1", None),
        item("i3", "t1", "b2", Some("y")),
    ];
    let plan = reconcile(&existing, &existing);
    assert!(plan.create.is_empty());
    assert!(plan.delete.is_empty());
    assert_eq!(plan.update, existing);
    assert_eq!(plan.committed(), existing);
}

#[test]
fn reconcile_of_nothing_with_nothing_is_empty() {
    let plan = reconcile(&Vec::new(), &Vec::new());
    assert!(plan.is_empty());
    assert!(plan.committed().is_empty());
}

#[test]
fn one_new_pair_is_created_under_a_new_identifier() {
    let desired = vec![wanted("t1", "b1", Some("v"))];
    let plan = reconcile(&Vec::new(), &desired);
    assert_eq!(plan.create.len(), 1);
    assert!(plan.update.is_empty());
    assert!(plan.delete.is_empty());
    let created = &plan.create[0];
    assert_eq!(created.tag_id, "t1");
    assert_eq!(created.ref_id, "b1");
    assert_eq!(created.value, Some("v".to_string()));
    assert_eq!(created.id.chars().count(), 26);
    assert_ne!(created.id, desired[0].id);
    assert_eq!(plan.committed(), plan.create);
}

#[test]
fn new_identifiers_differ_from_each_other() {
    let ids = new_ids(3);
    assert_eq!(ids.len(), 3);
    assert_ne!(ids[0], ids[1]);
    assert_ne!(ids[1], ids[2]);
    assert_ne!(ids[0], ids[2]);
    for id in &ids {
        assert_eq!(id.chars().count(), 26);
    }
}

#[test]
fn created_items_keep_the_order_of_the_caller() {
    let desired = vec![
        wanted("C", "b1", None),
        wanted("A", "b1", None),
        wanted("B", "b1", None),
    ];
    let plan = reconcile(&Vec::new(), &desired);
    assert_eq!(
        keys(&plan.create),
        vec![
            ("C".to_string(), "b1".to_string()),
            ("A".to_string(), "b1".to_string()),
            ("B".to_string(), "b1".to_string()),
        ]
    );
    assert!(plan.update.is_empty());
    assert!(plan.delete.is_empty());
}

#[test]
fn diff_partitions_by_identity() {
    let existing = vec![
        item("i1", "t1", "b1", Some("old")),
        item("i2", "t2", "b1", Some("gone")),
        item("i3", "t3", "b2", None),
    ];
    let desired = vec![
        wanted("t4", "b1", Some("new")),
        wanted("t1", "b1", Some("changed")),
        wanted("t3", "b2", Some("set")),
        wanted("t5", "b2", None),
    ];
    let plan = diff(&existing, &desired);
    assert_eq!(
        plan,
        Reconciliation {
            create: vec![wanted("t4", "b1", Some("new")), wanted("t5", "b2", None)],
            update: vec![
                item("i1", "t1", "b1", Some("changed")),
                item("i3", "t3", "b2", Some("set")),
            ],
            delete: vec![item("i2", "t2", "b1", Some("gone"))],
        }
    );
    assert_eq!(
        plan.committed(),
        vec![
            wanted("t4", "b1", Some("new")),
            wanted("t5", "b2", None),
            item("i1", "t1", "b1", Some("changed")),
            item("i3", "t3", "b2", Some("set")),
        ]
    );
}

#[test]
fn identity_ignores_identifier_and_value() {
    let existing = vec![item("stored", "t1", "b1", Some("a"))];
    let desired = vec![item("other", "t1", "b1", Some("b"))];
    let plan = diff(&existing, &desired);
    assert!(plan.create.is_empty());
    assert!(plan.delete.is_empty());
    assert_eq!(plan.update, vec![item("stored", "t1", "b1", Some("b"))]);
}

#[test]
fn same_tag_on_another_entity_is_another_identity() {
    let existing = vec![item("i1", "t1", "b1", None)];
    let desired = vec![wanted("t1", "b2", None)];
    let plan = diff(&existing, &desired);
    assert_eq!(plan.create, vec![wanted("t1", "b2", None)]);
    assert!(plan.update.is_empty());
    assert_eq!(plan.delete, vec![item("i1", "t1", "b1", None)]);
}

#[test]
fn a_pair_wanted_twice_is_written_once() {
    let existing = vec![item("i1", "t1", "b1", Some("old"))];
    let desired = vec![
        wanted("t2", "b1", Some("first")),
        wanted("t1", "b1", Some("one")),
        wanted("t2", "b1", Some("second")),
        wanted("t1", "b1", Some("two")),
    ];
    let plan = diff(&existing, &desired);
    assert_eq!(plan.create, vec![wanted("t2", "b1", Some("first"))]);
    assert_eq!(plan.update, vec![item("i1", "t1", "b1", Some("one"))]);
    assert!(plan.delete.is_empty());
}

#[test]
fn a_pair_stored_twice_is_updated_under_the_first_identifier() {
    let existing = vec![
        item("i1", "t1", "b1", Some("a")),
        item("i2", "t1", "b1", Some("b")),
    ];
    let desired = vec![wanted("t1", "b1", Some("c"))];
    let plan = diff(&existing, &desired);
    assert_eq!(plan.update, vec![item("i1", "t1", "b1", Some("c"))]);
    assert!(plan.create.is_empty());
    assert!(plan.delete.is_empty());
}

#[test]
fn nothing_wanted_deletes_what_is_stored() {
    let existing = vec![item("i1", "t1", "b1", None), item("i2", "t2", "b1", None)];
    let plan = reconcile(&existing, &Vec::new());
    assert!(plan.create.is_empty());
    assert!(plan.update.is_empty());
    assert_eq!(plan.delete, existing);
    assert!(plan.committed().is_empty());
    assert!(!plan.is_empty());
}

#[test]
fn rerun_after_creates_applied_only_deletes() {
    let existing = vec![
        item("i1", "t1", "b1", Some("keep")),
        item("i2", "t2", "b1", Some("gone")),
    ];
    let desired = vec![wanted("t1", "b1", Some("keep")), wanted("t3", "b1", None)];
    let first = reconcile(&existing, &desired);
    assert_eq!(first.create.len(), 1);
    assert_eq!(first.delete, vec![item("i2", "t2", "b1", Some("gone"))]);

    // The insertion ran, the update and the deletion did not.
    let mut stored = existing.clone();
    stored.extend(first.create.iter().cloned());

    let second = reconcile(&stored, &desired);
    assert!(second.create.is_empty());
    assert_eq!(second.delete, first.delete);
    // What is wanted and stored is written again, under the stored
    // identifiers and with unchanged values.
    assert_eq!(
        second.update,
        vec![item("i1", "t1", "b1", Some("keep")), first.create[0].clone()]
    );
}

#[test]
fn rerun_after_everything_applied_changes_nothing() {
    let existing = vec![item("i1", "t1", "b1", Some("old")), item("i2", "t2", "b1", None)];
    let desired = vec![wanted("t3", "b1", None), wanted("t1", "b1", Some("new"))];
    let first = reconcile(&existing, &desired);
    let stored = first.committed();
    let second = reconcile(&stored, &desired);
    assert!(second.create.is_empty());
    assert!(second.delete.is_empty());
    assert_eq!(second.update.len(), 2);
    assert_eq!(second.update[0], first.create[0]);
    assert_eq!(second.update[1], item("i1", "t1", "b1", Some("new")));
}

#[test]
fn assign_ids_sets_identifiers_in_order() {
    let planned = vec![wanted("t1", "b1", Some("v")), wanted("t2", "b1", None)];
    let made = assign_ids(planned, vec!["x".to_string(), "y".to_string()]);
    assert_eq!(made, vec![item("x", "t1", "b1", Some("v")), item("y", "t2", "b1", None)]);
}
