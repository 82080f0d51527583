use achiet::database::query::{
    copy_values, group_of, groups_of, list_of, Column, ColumnIndex, Query, Row,
};
use achiet::database::value::{Value, Values};
use achiet::error::Error;
use achiet::model::bookmark::Bookmark;
use achiet::model::tag::{Tag, TaggedItem};
use achiet::model::user::User;
use achiet::text::{copy_text, join_texts};
use achiet::util::Timestamp;

fn text(s: &str) -> Value {
    Value::String(Some(s.to_string()))
}

fn column(name: &str, value: Value) -> Column {
    Column(name.to_string(), value)
}

#[test]
fn query_joins_pieces_with_the_separator() {
    let mut query = Query::new();
    assert!(query.is_empty());
    query.set_separator(", ");
    query.push_str("a = ?").bind(Value::Int(Some(1))).push_str("b = ?").bind(text("x"));
    assert!(!query.is_empty());
    let (sql, args) = query.build();
    assert_eq!(sql, "a = ?, b = ?");
    assert_eq!(args, Values(vec![Value::Int(Some(1)), text("x")]));
}

#[test]
fn query_append_adds_text_as_one_piece_and_moves_values() {
    let mut inner = Query::new();
    inner.set_separator(" AND ");
    inner.push_str("x = ?").bind(Value::Bool(Some(true)));
    inner.push_str("y = ?").bind(Value::Unsigned(Some(7)));
    let mut outer = Query::new();
    outer.push_str("SELECT * FROM t WHERE ").bind(text("first"));
    outer.append(inner);
    let (sql, args) = outer.build();
    assert_eq!(sql, "SELECT * FROM t WHERE x = ? AND y = ?");
    assert_eq!(
        args,
        Values(vec![text("first"), Value::Bool(Some(true)), Value::Unsigned(Some(7))])
    );
}

#[test]
fn empty_query_builds_empty_text() {
    let (sql, args) = Query::new().build();
    assert_eq!(sql, "");
    assert_eq!(args, Values(Vec::new()));
}

#[test]
fn query_with_only_a_value_is_not_empty() {
    let mut query = Query::new();
    query.bind(Value::Int(None));
    assert!(!query.is_empty());
}

#[test]
fn join_texts_puts_the_separator_between_neighbours() {
    let parts = vec!["a".to_string(), "".to_string(), "c".to_string()];
    assert_eq!(join_texts(&parts, "/"), "a//c");
    assert_eq!(join_texts(&vec!["only".to_string()], ", "), "only");
    assert_eq!(join_texts(&Vec::new(), ", "), "");
}

#[test]
fn placeholder_lists() {
    let (sql, args) = list_of(vec![text("a"), text("b"), text("c")]).build();
    assert_eq!(sql, "?, ?, ?");
    assert_eq!(args, Values(vec![text("a"), text("b"), text("c")]));

    let (sql, args) = list_of(Vec::new()).build();
    assert_eq!(sql, "");
    assert_eq!(args, Values(Vec::new()));

    let (sql, args) = group_of(vec![text("a"), Value::Int(Some(2))]).build();
    assert_eq!(sql, "(?, ?)");
    assert_eq!(args, Values(vec![text("a"), Value::Int(Some(2))]));

    let rows = vec![vec![text("a"), text("b")], vec![text("c"), text("d")]];
    let (sql, args) = groups_of(&rows).build();
    assert_eq!(sql, "(?, ?), (?, ?)");
    assert_eq!(args, Values(vec![text("a"), text("b"), text("c"), text("d")]));
}

#[test]
fn values_push_and_append() {
    let mut values = Values::default();
    values.push(Value::Int(Some(1)));
    let mut other = Values(vec![text("a"), Value::Bytes(Some(vec![1, 2]))]);
    values.append(&mut other);
    assert_eq!(
        values,
        Values(vec![Value::Int(Some(1)), text("a"), Value::Bytes(Some(vec![1, 2]))])
    );
    assert!(other.0.is_empty());
    assert_eq!(copy_values(&values.0), values.0);
}

#[test]
fn values_from_plain_values() {
    assert_eq!(Value::from(3i32), Value::Int(Some(3)));
    assert_eq!(Value::from(None::<i32>), Value::Int(None));
    assert_eq!(Value::from(3u32), Value::Unsigned(Some(3)));
    assert_eq!(Value::from(Some(4u32)), Value::Unsigned(Some(4)));
    assert_eq!(Value::from("a".to_string()), text("a"));
    assert_eq!(Value::from(None::<String>), Value::String(None));
    assert_eq!(Value::from("a"), text("a"));
    assert_eq!(Value::from(Some("a")), text("a"));
    assert_eq!(Value::from(None::<&str>), Value::String(None));
    assert_eq!(Value::from(true), Value::Bool(Some(true)));
    assert_eq!(Value::from(Some(false)), Value::Bool(Some(false)));
    let now = Timestamp { secs: 5, nanos: 6 };
    assert_eq!(Value::from(now), Value::DateTime(Some(now)));
    assert_eq!(Value::from(Some(now)), Value::DateTime(Some(now)));
    let into: Value = 7i32.into();
    assert_eq!(into, Value::Int(Some(7)));
}

#[test]
fn values_decode_by_type() {
    assert_eq!(text("a").to_text(), Ok("a".to_string()));
    assert_eq!(Value::String(None).to_text(), Ok(String::new()));
    assert_eq!(Value::Int(Some(1)).to_text(), Err(Error::DecodeFailure));
    assert_eq!(text("a").to_optional_text(), Ok(Some("a".to_string())));
    assert_eq!(Value::String(None).to_optional_text(), Ok(None));
    assert_eq!(Value::Bool(None).to_optional_text(), Err(Error::DecodeFailure));

    assert_eq!(Value::Int(Some(-3)).to_int(), Ok(-3));
    assert_eq!(Value::Int(None).to_int(), Ok(0));
    assert_eq!(Value::Int(None).to_optional_int(), Ok(None));
    assert_eq!(Value::Unsigned(Some(3)).to_int(), Err(Error::DecodeFailure));

    assert_eq!(Value::Unsigned(Some(3)).to_unsigned(), Ok(3));
    assert_eq!(Value::Unsigned(None).to_unsigned(), Ok(0));
    assert_eq!(Value::Int(Some(3)).to_unsigned(), Ok(3));
    assert_eq!(Value::Int(Some(i32::MAX)).to_optional_unsigned(), Ok(Some(2147483647)));
    assert_eq!(Value::Int(Some(-1)).to_unsigned(), Err(Error::DecodeFailure));
    assert_eq!(Value::Int(None).to_unsigned(), Err(Error::DecodeFailure));
    assert_eq!(text("3").to_unsigned(), Err(Error::DecodeFailure));

    assert_eq!(Value::Bool(Some(true)).to_bool(), Ok(true));
    assert_eq!(Value::Bool(None).to_bool(), Ok(false));
    assert_eq!(Value::Bool(None).to_optional_bool(), Ok(None));
    assert_eq!(Value::Int(Some(1)).to_bool(), Err(Error::DecodeFailure));

    let now = Timestamp { secs: 5, nanos: 6 };
    assert_eq!(Value::DateTime(Some(now)).to_instant(), Ok(now));
    assert_eq!(Value::DateTime(None).to_instant(), Ok(Timestamp { secs: 0, nanos: 0 }));
    assert_eq!(Value::DateTime(None).to_optional_instant(), Ok(None));
    assert_eq!(text("now").to_optional_instant(), Err(Error::DecodeFailure));

    let bytes = Value::Bytes(Some(vec![1, 2, 3]));
    assert_eq!(bytes.duplicate(), bytes);
    assert_eq!(copy_text(&Some("a".to_string())), Some("a".to_string()));
    assert_eq!(copy_text(&None), None);
}

#[test]
fn row_selects_columns_by_position_and_name() {
    let row = Row {
        columns: vec![
            column("id", text("1")),
            column("name", text("first")),
            column("name", text("second")),
        ],
    };
    assert_eq!(row.len(), 3);
    assert_eq!(row.column_name(ColumnIndex::Int(1)), Ok("name".to_string()));
    assert_eq!(row.column_name(ColumnIndex::Int(3)), Err(()));
    assert_eq!(row.try_get(ColumnIndex::Int(0)), Ok(text("1")));
    assert_eq!(row.try_get("name".into()), Ok(text("first")));
    assert_eq!(row.try_get("name".to_string().into()), Ok(text("first")));
    assert_eq!(row.try_get(2usize.into()), Ok(text("second")));
    assert_eq!(row.try_get("missing".into()), Err(()));
    assert_eq!(row.column_name("id".into()), Ok("id".to_string()));
    assert_eq!(ColumnIndex::Int(5).column_index(&row), None);
    assert_eq!(ColumnIndex::Str("id".to_string()).column_index(&row), Some(column("id", text("1"))));
    assert_eq!(row.get("id"), Ok(text("1")));
    assert_eq!(row.get("nope"), Err(Error::DecodeFailure));
    assert_eq!(row.text("name"), Ok("first".to_string()));
    assert_eq!(row.optional_text("name"), Ok(Some("first".to_string())));
    assert_eq!(row.unsigned("id"), Err(Error::DecodeFailure));
    assert_eq!(row.optional_instant("id"), Err(Error::DecodeFailure));
}

fn tag_row() -> Row {
    Row {
        columns: vec![
            column("id", text("t1")),
            column("path", text("/work/project")),
            column("prefix", text("/work")),
            column("name", text("project")),
            column("label", Value::String(None)),
            column("parent_id", text("t0")),
            column("depth", Value::Int(Some(2))),
            column("value_type", Value::String(None)),
            column("user_id", text("u1")),
            column("created_at", Value::DateTime(Some(Timestamp { secs: 1, nanos: 2 }))),
            column("updated_at", Value::DateTime(None)),
        ],
    }
}

#[test]
fn tag_decodes_from_a_row() {
    assert_eq!(
        Tag::from_row(&tag_row()),
        Ok(Tag {
            id: "t1".to_string(),
            path: "/work/project".to_string(),
            prefix: "/work".to_string(),
            name: "project".to_string(),
            label: None,
            parent_id: Some("t0".to_string()),
            depth: 2,
            value_type: None,
            user_id: "u1".to_string(),
            created_at: Some(Timestamp { secs: 1, nanos: 2 }),
            updated_at: None,
        })
    );
}

#[test]
fn tag_does_not_decode_from_a_short_or_mistyped_row() {
    let mut short = tag_row();
    short.columns.pop();
    assert_eq!(Tag::from_row(&short), Err(Error::DecodeFailure));

    let mut mistyped = tag_row();
    mistyped.columns[6] = column("depth", text("2"));
    assert_eq!(Tag::from_row(&mistyped), Err(Error::DecodeFailure));

    let mut negative = tag_row();
    negative.columns[6] = column("depth", Value::Int(Some(-2)));
    assert_eq!(Tag::from_row(&negative), Err(Error::DecodeFailure));

    assert_eq!(Tag::from_row(&Row { columns: Vec::new() }), Err(Error::DecodeFailure));
}

#[test]
fn tagged_item_decodes_from_a_row() {
    let row = Row {
        columns: vec![
            column("value", Value::String(None)),
            column("tag_id", text("t")),
            column("ref_id", text("r")),
            column("id", text("i")),
        ],
    };
    assert_eq!(
        TaggedItem::from_row(&row),
        Ok(TaggedItem {
            id: "i".to_string(),
            ref_id: "r".to_string(),
            tag_id: "t".to_string(),
            value: None,
        })
    );
    let row = Row { columns: vec![column("id", text("i"))] };
    assert_eq!(TaggedItem::from_row(&row), Err(Error::DecodeFailure));
}

#[test]
fn bookmark_and_user_decode_from_rows() {
    let now = Timestamp { secs: 10, nanos: 0 };
    let row = Row {
        columns: vec![
            column("id", text("b1")),
            column("user_id", text("u1")),
            column("title", text("T")),
            column("url", Value::String(None)),
            column("description", Value::String(None)),
            column("resource_id", Value::String(None)),
            column("created_at", Value::DateTime(Some(now))),
            column("updated_at", Value::DateTime(Some(now))),
        ],
    };
    assert_eq!(
        Bookmark::from_row(&row),
        Ok(Bookmark {
            id: "b1".to_string(),
            user_id: "u1".to_string(),
            title: Some("T".to_string()),
            created_at: Some(now),
            updated_at: Some(now),
            ..Bookmark::default()
        })
    );
    assert_eq!(User::from_row(&row), Err(Error::DecodeFailure));

    let row = Row {
        columns: vec![
            column("id", text("u1")),
            column("username", text("ann")),
            column("password", text("hash")),
            column("email", Value::String(None)),
            column("role", Value::String(None)),
            column("created_at", Value::DateTime(None)),
            column("updated_at", Value::DateTime(None)),
        ],
    };
    let user = User::from_row(&row).unwrap();
    assert_eq!(
        user,
        User {
            id: "u1".to_string(),
            username: "ann".to_string(),
            password: "hash".to_string(),
            ..User::default()
        }
    );
    assert_eq!(user.duplicate(), user);
    assert_eq!(Bookmark::from_row(&row), Err(Error::DecodeFailure));
}
