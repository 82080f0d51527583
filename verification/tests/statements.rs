use achiet::database::query::{Column, Query, Row};
use achiet::database::value::Value;
use achiet::error::Error;
use achiet::model::tag::{Tag, TaggedItem, TaggedType};
use achiet::repo::script::{Progress, Script};
use achiet::repo::tag::{
    copy_tags, create_tags, create_tags_query, decode_tags, delete_tags, delete_tags_query,
    find_tags_query, sync_tags, sync_tags_query, update_tag_query, update_tags,
    update_tags_queries, wanted_paths, SearchTag,
};
use achiet::repo::tagged::{
    decode_tagged_items, delete_tagged_items_query, find_tagged_items_query,
    insert_tagged_items_query, referenced_ids, sync_tagged_items, sync_tagged_items_query,
    tag_ids_of, update_tagged_items_query, write_script,
};
use achiet::reconcile::Reconciliation;
use achiet::util::Timestamp;

fn text(s: &str) -> Value {
    Value::String(Some(s.to_string()))
}

fn item(id: &str, tag_id: &str, ref_id: &str, value: Option<&str>) -> TaggedItem {
    TaggedItem {
        id: id.to_string(),
        ref_id: ref_id.to_string(),
        tag_id: tag_id.to_string(),
        value: value.map(|v| v.to_string()),
    }
}

fn item_row(item: &TaggedItem) -> Row {
    Row {
        columns: vec![
            Column("id".to_string(), text(&item.id)),
            Column("ref_id".to_string(), text(&item.ref_id)),
            Column("tag_id".to_string(), text(&item.tag_id)),
            Column("value".to_string(), Value::String(item.value.clone())),
        ],
    }
}

fn tag_row(tag: &Tag) -> Row {
    Row {
        columns: vec![
            Column("id".to_string(), text(&tag.id)),
            Column("path".to_string(), text(&tag.path)),
            Column("prefix".to_string(), text(&tag.prefix)),
            Column("name".to_string(), text(&tag.name)),
            Column("label".to_string(), Value::String(tag.label.clone())),
            Column("parent_id".to_string(), Value::String(tag.parent_id.clone())),
            Column("depth".to_string(), Value::Int(Some(tag.depth as i32))),
            Column("value_type".to_string(), Value::String(tag.value_type.clone())),
            Column("user_id".to_string(), text(&tag.user_id)),
            Column("created_at".to_string(), Value::DateTime(tag.created_at)),
            Column("updated_at".to_string(), Value::DateTime(tag.updated_at)),
        ],
    }
}

fn built(query: Query) -> (String, Vec<Value>) {
    let (sql, args) = query.build();
    (sql, args.0)
}

fn run_all<T>(script: Script<T>) -> (Vec<String>, Result<T, Error>) {
    let mut ran = Vec::new();
    let mut progress = script.begin();
    loop {
        match progress {
            Progress::Finished(outcome) => return (ran, outcome),
            Progress::Execute(query, rest) => {
                ran.push(query.build().0);
                progress = rest.resume(true);
            }
        }
    }
}

#[test]
fn select_of_tagged_items_names_each_entity_once() {
    let desired = vec![
        item("", "t1", "b1", None),
        item("", "t2", "b2", None),
        item("", "t3", "b1", None),
    ];
    assert_eq!(referenced_ids(&desired), vec!["b1".to_string(), "b2".to_string()]);
    let (sql, args) = built(sync_tagged_items_query(TaggedType::Bookmark, &desired));
    assert_eq!(sql, "SELECT * FROM tagged_bookmark WHERE ref_id IN (?, ?)");
    assert_eq!(args, vec![text("b1"), text("b2")]);

    let (sql, args) = built(find_tagged_items_query(
        TaggedType::Bookmark,
        &vec!["b1".to_string(), "b1".to_string()],
    ));
    assert_eq!(sql, "SELECT * FROM tagged_bookmark WHERE ref_id IN (?, ?)");
    assert_eq!(args, vec![text("b1"), text("b1")]);
    assert_eq!(tag_ids_of(&desired), vec!["t1", "t2", "t3"]);
}

#[test]
fn insert_of_tagged_items_is_one_statement() {
    let items = vec![item("i1", "t1", "b1", Some("v")), item("i2", "t2", "b1", None)];
    let (sql, args) = built(insert_tagged_items_query(TaggedType::Bookmark, &items).unwrap());
    assert_eq!(
        sql,
        "INSERT INTO tagged_bookmark (id, ref_id, tag_id, value) VALUES (?, ?, ?, ?), (?, ?, ?, ?)"
    );
    assert_eq!(
        args,
        vec![
            text("i1"),
            text("b1"),
            text("t1"),
            text("v"),
            text("i2"),
            text("b1"),
            text("t2"),
            Value::String(None),
        ]
    );
}

#[test]
fn update_of_tagged_items_joins_a_value_table() {
    let items = vec![item("i1", "t1", "b1", Some("v")), item("i2", "t2", "b1", None)];
    let (sql, args) = built(update_tagged_items_query(TaggedType::Bookmark, &items).unwrap());
    assert_eq!(
        sql,
        "WITH wanted (id, value) AS (VALUES (?, ?), (?, ?)) UPDATE tagged_bookmark SET value = \
         (SELECT wanted.value FROM wanted WHERE wanted.id = tagged_bookmark.id) WHERE EXISTS \
         (SELECT 1 FROM wanted WHERE wanted.id = tagged_bookmark.id)"
    );
    assert_eq!(args, vec![text("i1"), text("v"), text("i2"), Value::String(None)]);
}

#[test]
fn delete_of_tagged_items_joins_by_existence() {
    let items = vec![item("i1", "t1", "b1", Some("v")), item("i2", "t2", "b1", None)];
    let (sql, args) = built(delete_tagged_items_query(TaggedType::Bookmark, &items).unwrap());
    assert_eq!(
        sql,
        "WITH unwanted (id) AS (VALUES (?), (?)) DELETE FROM tagged_bookmark WHERE EXISTS \
         (SELECT 1 FROM unwanted WHERE unwanted.id = tagged_bookmark.id)"
    );
    assert_eq!(args, vec![text("i1"), text("i2")]);
}

#[test]
fn empty_batches_have_no_statement() {
    assert!(insert_tagged_items_query(TaggedType::Bookmark, &Vec::new()).is_none());
    assert!(update_tagged_items_query(TaggedType::Bookmark, &Vec::new()).is_none());
    assert!(delete_tagged_items_query(TaggedType::Bookmark, &Vec::new()).is_none());
    assert!(create_tags_query(&Vec::new()).is_none());
    assert!(delete_tags_query(&Vec::new()).is_none());
    assert!(update_tags_queries(&Vec::new()).is_empty());
}

#[test]
fn write_script_runs_create_then_update_then_delete() {
    let plan = Reconciliation {
        create: vec![item("i3", "t3", "b1", None)],
        update: vec![item("i1", "t1", "b1", Some("v"))],
        delete: vec![item("i2", "t2", "b1", None)],
    };
    let script = write_script(TaggedType::Bookmark, &plan);
    assert_eq!(script.remaining(), 3);
    let (ran, outcome) = run_all(script);
    assert_eq!(ran.len(), 3);
    assert!(ran[0].starts_with("INSERT INTO tagged_bookmark "));
    assert!(ran[1].starts_with("WITH wanted "));
    assert!(ran[2].starts_with("WITH unwanted "));
    assert_eq!(
        outcome,
        Ok(vec![item("i3", "t3", "b1", None), item("i1", "t1", "b1", Some("v"))])
    );
}

#[test]
fn write_script_skips_empty_batches() {
    let plan = Reconciliation {
        create: Vec::new(),
        update: Vec::new(),
        delete: vec![item("i2", "t2", "b1", None)],
    };
    let (ran, outcome) = run_all(write_script(TaggedType::Bookmark, &plan));
    assert_eq!(ran.len(), 1);
    assert!(ran[0].starts_with("WITH unwanted "));
    assert_eq!(outcome, Ok(Vec::new()));

    let nothing = Reconciliation { create: Vec::new(), update: Vec::new(), delete: Vec::new() };
    let (ran, outcome) = run_all(write_script(TaggedType::Bookmark, &nothing));
    assert!(ran.is_empty());
    assert_eq!(outcome, Ok(Vec::new()));
}

#[test]
fn script_stops_at_the_first_failure() {
    let mut first = Query::new();
    first.push_str("one");
    let mut second = Query::new();
    second.push_str("two");
    let mut third = Query::new();
    third.push_str("three");
    let script = Script::new(vec![first, second, third], 7u32);
    assert_eq!(script.remaining(), 3);
    let rest = match script.begin() {
        Progress::Execute(query, rest) => {
            assert_eq!(query.build().0, "one");
            rest
        }
        Progress::Finished(_) => panic!("a statement was pending"),
    };
    let rest = match rest.resume(true) {
        Progress::Execute(query, rest) => {
            assert_eq!(query.build().0, "two");
            rest
        }
        Progress::Finished(_) => panic!("a statement was pending"),
    };
    assert_eq!(rest.remaining(), 1);
    match rest.resume(false) {
        Progress::Finished(outcome) => assert_eq!(outcome, Err(Error::QueryFailure)),
        Progress::Execute(_, _) => panic!("the script went on after a failure"),
    }
}

#[test]
fn script_without_statements_finishes_at_once() {
    match Script::new(Vec::new(), "done").begin() {
        Progress::Finished(outcome) => assert_eq!(outcome, Ok("done")),
        Progress::Execute(_, _) => panic!("nothing was pending"),
    }
}

#[test]
fn sync_tagged_items_reconciles_and_writes() {
    let existing = vec![item("i1", "t1", "b1", Some("old")), item("i2", "t2", "b1", None)];
    let rows: Vec<Row> = existing.iter().map(item_row).collect();
    let desired = vec![item("", "t3", "b1", None), item("", "t1", "b1", Some("new"))];
    let synced = sync_tagged_items(TaggedType::Bookmark, &desired, &rows).unwrap();
    assert_eq!(synced.plan.create.len(), 1);
    assert_eq!(synced.plan.create[0].tag_id, "t3");
    assert_eq!(synced.plan.update, vec![item("i1", "t1", "b1", Some("new"))]);
    assert_eq!(synced.plan.delete, vec![item("i2", "t2", "b1", None)]);
    let committed = synced.plan.committed();
    let (ran, outcome) = run_all(synced.script);
    assert_eq!(ran.len(), 3);
    assert_eq!(outcome, Ok(committed));
}

#[test]
fn sync_tagged_items_with_desired_equal_to_stored_issues_no_insert_or_delete() {
    let existing = vec![item("i1", "t1", "b1", Some("a")), item("i2", "t2", "b1", None)];
    let rows: Vec<Row> = existing.iter().map(item_row).collect();
    let synced = sync_tagged_items(TaggedType::Bookmark, &existing, &rows).unwrap();
    assert!(synced.plan.create.is_empty());
    assert!(synced.plan.delete.is_empty());
    let (ran, outcome) = run_all(synced.script);
    assert_eq!(ran.len(), 1);
    assert!(ran[0].starts_with("WITH wanted "));
    assert_eq!(outcome, Ok(existing));
}

#[test]
fn sync_tagged_items_fails_on_a_row_that_holds_no_item() {
    let rows = vec![
        item_row(&item("i1", "t1", "b1", None)),
        Row { columns: vec![Column("id".to_string(), text("i2"))] },
    ];
    assert_eq!(decode_tagged_items(&rows), Err(Error::DecodeFailure));
    let synced = sync_tagged_items(TaggedType::Bookmark, &Vec::new(), &rows);
    assert_eq!(synced.err(), Some(Error::DecodeFailure));
}

#[test]
fn find_tags_statement_follows_the_search() {
    let (sql, args) = built(find_tags_query(&SearchTag::default()));
    assert_eq!(sql, "SELECT * FROM tag");
    assert!(args.is_empty());

    let search = SearchTag {
        id_vec: Some(vec!["a".to_string(), "b".to_string()]),
        user_id: Some("u1".to_string()),
        path_vec: Some(vec!["/x".to_string()]),
    };
    let (sql, args) = built(find_tags_query(&search));
    assert_eq!(sql, "SELECT * FROM tag WHERE id IN (?, ?) AND user_id = ? AND path IN (?)");
    assert_eq!(args, vec![text("a"), text("b"), text("u1"), text("/x")]);

    let search = SearchTag { id_vec: Some(Vec::new()), ..SearchTag::default() };
    let (sql, args) = built(find_tags_query(&search));
    assert_eq!(sql, "SELECT * FROM tag WHERE id IN ()");
    assert!(args.is_empty());
}

#[test]
fn sync_tags_statement_names_owner_and_distinct_paths() {
    let desired = vec![
        Tag::from_path("/a/b".to_string()),
        Tag::from_path("/a".to_string()),
        Tag::from_path("a/b/".to_string()),
    ];
    assert_eq!(wanted_paths(&desired), vec!["/a/b".to_string(), "/a".to_string()]);
    let (sql, args) = built(sync_tags_query(&"u1".to_string(), &desired));
    assert_eq!(sql, "SELECT * FROM tag WHERE user_id = ? AND path IN (?, ?)");
    assert_eq!(args, vec![text("u1"), text("/a/b"), text("/a")]);
}

#[test]
fn tag_statements() {
    let now = Timestamp { secs: 9, nanos: 0 };
    let tag = Tag {
        id: "t1".to_string(),
        user_id: "u1".to_string(),
        label: Some("L".to_string()),
        created_at: Some(now),
        updated_at: Some(now),
        ..Tag::from_path("/a/b".to_string())
    };
    let (sql, args) = built(create_tags_query(&vec![tag.clone(), tag.clone()]).unwrap());
    assert_eq!(
        sql,
        "INSERT INTO tag (id, path, prefix, name, label, parent_id, depth, value_type, user_id, \
         created_at, updated_at) VALUES (?, ?, ?, ?, ?, ?, ?, ?, ?, ?, ?), \
         (?, ?, ?, ?, ?, ?, ?, ?, ?, ?, ?)"
    );
    let one = vec![
        text("t1"),
        text("/a/b"),
        text("/a"),
        text("b"),
        text("L"),
        Value::String(None),
        Value::Unsigned(Some(2)),
        Value::String(None),
        text("u1"),
        Value::DateTime(Some(now)),
        Value::DateTime(Some(now)),
    ];
    let mut twice = one.clone();
    twice.extend(one.clone());
    assert_eq!(args, twice);

    let (sql, args) = built(update_tag_query(&tag));
    assert_eq!(
        sql,
        "UPDATE tag SET path = ?, prefix = ?, name = ?, label = ?, parent_id = ?, depth = ?, \
         value_type = ?, updated_at = ? WHERE id = ?"
    );
    assert_eq!(
        args,
        vec![
            text("/a/b"),
            text("/a"),
            text("b"),
            text("L"),
            Value::String(None),
            Value::Unsigned(Some(2)),
            Value::String(None),
            Value::DateTime(Some(now)),
            text("t1"),
        ]
    );
    assert_eq!(update_tags_queries(&vec![tag.clone(), tag.clone()]).len(), 2);

    let other = Tag { id: "t2".to_string(), ..tag.clone() };
    let (sql, args) = built(delete_tags_query(&vec![tag, other]).unwrap());
    assert_eq!(sql, "DELETE FROM tag WHERE id IN (?, ?)");
    assert_eq!(args, vec![text("t1"), text("t2")]);
}

#[test]
fn sync_tags_creates_what_is_missing_in_one_insert() {
    let owner = "u1".to_string();
    let stored = Tag {
        id: "t1".to_string(),
        user_id: "u1".to_string(),
        ..Tag::from_path("/a".to_string())
    };
    let rows = vec![tag_row(&stored)];
    assert_eq!(decode_tags(&rows), Ok(vec![stored.clone()]));
    let desired = vec![
        Tag::from_path("/a/b".to_string()),
        Tag::from_path("/a".to_string()),
        Tag::from_path("/c".to_string()),
    ];
    let synced = sync_tags(&owner, &desired, &rows, Timestamp { secs: 1, nanos: 0 }).unwrap();
    assert_eq!(synced.found.create.len(), 2);
    let expected = synced.found.tags.clone();
    assert_eq!(expected[1], stored);
    let (ran, outcome) = run_all(synced.script);
    assert_eq!(ran.len(), 1);
    assert!(ran[0].starts_with("INSERT INTO tag "));
    assert_eq!(outcome, Ok(expected));

    let again = sync_tags(&owner, &vec![desired[1].clone()], &rows, Timestamp { secs: 2, nanos: 0 })
        .unwrap();
    assert!(again.found.create.is_empty());
    let (ran, outcome) = run_all(again.script);
    assert!(ran.is_empty());
    assert_eq!(outcome, Ok(vec![stored]));
}

#[test]
fn sync_tags_fails_on_a_row_that_holds_no_tag() {
    let rows = vec![Row { columns: Vec::new() }];
    let synced = sync_tags(&"u1".to_string(), &Vec::new(), &rows, Timestamp { secs: 1, nanos: 0 });
    assert_eq!(synced.err(), Some(Error::DecodeFailure));
}

#[test]
fn create_tags_assigns_identifiers_and_inserts_once() {
    let now = Timestamp { secs: 4, nanos: 0 };
    let wanted = vec![
        Tag { user_id: "u1".to_string(), ..Tag::from_path("/a".to_string()) },
        Tag {
            user_id: "u2".to_string(),
            label: Some("B".to_string()),
            ..Tag::from_path("/a/b".to_string())
        },
    ];
    let script = create_tags(&wanted, now);
    assert_eq!(script.remaining(), 1);
    let (ran, outcome) = run_all(script);
    assert!(ran[0].starts_with("INSERT INTO tag "));
    let made = outcome.unwrap();
    assert_eq!(made.len(), 2);
    for (made, wanted) in made.iter().zip(wanted.iter()) {
        assert_eq!(made.id.chars().count(), 26);
        assert_eq!(
            *made,
            Tag {
                id: made.id.clone(),
                created_at: Some(now),
                updated_at: Some(now),
                ..wanted.clone()
            }
        );
    }
    assert_ne!(made[0].id, made[1].id);

    let (ran, outcome) = run_all(create_tags(&Vec::new(), now));
    assert!(ran.is_empty());
    assert_eq!(outcome, Ok(Vec::new()));
}

#[test]
fn update_and_delete_tags_return_the_tags() {
    let tags = vec![
        Tag { id: "t1".to_string(), ..Tag::from_path("/a".to_string()) },
        Tag { id: "t2".to_string(), ..Tag::from_path("/b".to_string()) },
    ];
    assert_eq!(copy_tags(&tags), tags);
    let (ran, outcome) = run_all(update_tags(&tags));
    assert_eq!(ran.len(), 2);
    assert!(ran.iter().all(|sql| sql.starts_with("UPDATE tag SET ")));
    assert_eq!(outcome, Ok(tags.clone()));

    let (ran, outcome) = run_all(delete_tags(&tags));
    assert_eq!(ran, vec!["DELETE FROM tag WHERE id IN (?, ?)".to_string()]);
    assert_eq!(outcome, Ok(tags));

    let (ran, outcome) = run_all(delete_tags(&Vec::new()));
    assert!(ran.is_empty());
    assert_eq!(outcome, Ok(Vec::new()));
}
