use achiet::model::tag::Tag;
use achiet::resolve::{lookup, missing_tags, plant, resolve};
use achiet::util::Timestamp;

fn stored(id: &str, owner: &str, path: &str) -> Tag {
    Tag {
        id: id.to_string(),
        user_id: owner.to_string(),
        ..Tag::from_path(path.to_string())
    }
}

fn at(secs: i64) -> Timestamp {
    Timestamp { secs, nanos: 0 }
}

fn paths(tags: &[Tag]) -> Vec<String> {
    tags.iter().map(|t| t.path.clone()).collect()
}

#[test]
fn sync_resolves_one_tag_per_distinct_path() {
    let owner = "u1".to_string();
    let existing = vec![stored("a", "u1", "/work")];
    let desired = vec![
        Tag::from_path("/work/project".to_string()),
        Tag::from_path("work".to_string()),
        Tag::from_path("/work/project/".to_string()),
        Tag::from_path("/home".to_string()),
        Tag::from_path("/work".to_string()),
    ];
    let found = resolve(&owner, &existing, &desired, at(10));
    assert_eq!(paths(&found.tags), vec!["/work/project", "/work", "/home"]);
    assert_eq!(paths(&found.create), vec!["/work/project", "/home"]);
    assert_eq!(found.tags[1], existing[0]);
    assert_eq!(found.tags[0], found.create[0]);
    assert_eq!(found.tags[2], found.create[1]);
}

#[test]
fn created_tags_are_owned_stamped_and_identified() {
    let owner = "u1".to_string();
    let desired = vec![Tag::from_path("/top/subpath/tag/".to_string())];
    let found = resolve(&owner, &Vec::new(), &desired, at(1_700_000_000));
    assert_eq!(found.create.len(), 1);
    let made = &found.create[0];
    assert_eq!(made.id.chars().count(), 26);
    assert_eq!(
        *made,
        Tag {
            id: made.id.clone(),
            path: "/top/subpath/tag".to_string(),
            prefix: "/top/subpath".to_string(),
            name: "tag".to_string(),
            depth: 3,
            user_id: "u1".to_string(),
            created_at: Some(at(1_700_000_000)),
            updated_at: Some(at(1_700_000_000)),
            ..Tag::default()
        }
    );
}

#[test]
fn resolving_again_keeps_identifiers() {
    let owner = "u1".to_string();
    let existing = vec![stored("a", "u1", "/work")];
    let desired = vec![
        Tag::from_path("/work/project".to_string()),
        Tag::from_path("/work".to_string()),
    ];
    let first = resolve(&owner, &existing, &desired, at(10));
    let mut store = existing.clone();
    store.extend(first.create.iter().cloned());
    let second = resolve(&owner, &store, &desired, at(20));
    assert!(second.create.is_empty());
    assert_eq!(second.tags, first.tags);
}

#[test]
fn tags_of_other_owners_are_not_resolved() {
    let owner = "u1".to_string();
    let existing = vec![stored("a", "u2", "/work"), stored("b", "u1", "/work")];
    let desired = vec![Tag::from_path("/work".to_string())];
    let found = resolve(&owner, &existing, &desired, at(10));
    assert!(found.create.is_empty());
    assert_eq!(found.tags, vec![existing[1].clone()]);

    let other = "u3".to_string();
    let found = resolve(&other, &existing, &desired, at(10));
    assert_eq!(found.create.len(), 1);
    assert_eq!(found.create[0].user_id, "u3");
    assert_eq!(found.tags, found.create);
}

#[test]
fn resolving_nothing_gives_nothing() {
    let owner = "u1".to_string();
    let found = resolve(&owner, &vec![stored("a", "u1", "/work")], &Vec::new(), at(1));
    assert!(found.create.is_empty());
    assert!(found.tags.is_empty());
}

#[test]
fn missing_tags_are_the_wanted_without_the_stored() {
    let owner = "u1".to_string();
    let existing = vec![stored("a", "u1", "/b")];
    let desired = vec![
        Tag::from_path("/c".to_string()),
        Tag::from_path("/b".to_string()),
        Tag::from_path("/a".to_string()),
        Tag::from_path("/c".to_string()),
    ];
    let wanted = missing_tags(&owner, &existing, &desired);
    assert_eq!(wanted, vec![desired[0].clone(), desired[2].clone()]);
}

#[test]
fn plant_assigns_identifier_owner_and_time() {
    let owner = "u9".to_string();
    let wanted = vec![Tag {
        label: Some("L".to_string()),
        value_type: Some("text".to_string()),
        ..Tag::from_path("/a/b".to_string())
    }];
    let made = plant(&wanted, &owner, &vec!["id-1".to_string()], at(5));
    assert_eq!(
        made,
        vec![Tag {
            id: "id-1".to_string(),
            user_id: "u9".to_string(),
            created_at: Some(at(5)),
            updated_at: Some(at(5)),
            ..wanted[0].clone()
        }]
    );
}

#[test]
fn lookup_prefers_the_first_pool() {
    let owner = "u1".to_string();
    let first = vec![stored("a", "u1", "/x")];
    let second = vec![stored("b", "u1", "/x"), stored("c", "u1", "/y")];
    let desired = vec![
        Tag::from_path("/y".to_string()),
        Tag::from_path("/x".to_string()),
        Tag::from_path("/z".to_string()),
    ];
    let tags = lookup(&owner, &first, &second, &desired);
    assert_eq!(tags, vec![second[1].clone(), first[0].clone()]);
}
