use achiet::model::tag::{Tag, TaggedItem, TaggedType};
use achiet::path::{derive_fields, parent_path};

#[test]
fn tag_from_path() {
    assert_eq!(
        Tag::from_path("tag".to_string()),
        Tag {
            path: "/tag".to_string(),
            prefix: "/".to_string(),
            name: "tag".to_string(),
            depth: 1u32,
            ..Tag::default()
        },
    );

    assert_eq!(
        Tag::from_path("/top/subpath/tag/".to_string()),
        Tag {
            path: "/top/subpath/tag".to_string(),
            prefix: "/top/subpath".to_string(),
            name: "tag".to_string(),
            depth: 3u32,
            ..Tag::default()
        },
    );
}

#[test]
fn derive_is_idempotent_on_canonical_paths() {
    let first = derive_fields("//work/project/todo//");
    let second = derive_fields(&first.path);
    assert_eq!(first, second);
    assert_eq!(first.path, "/work/project/todo");
    assert_eq!(first.prefix, "/work/project");
    assert_eq!(first.name, "todo");
    assert_eq!(first.depth, 3);
}

#[test]
fn derive_single_segment_has_root_prefix() {
    let fields = derive_fields("inbox");
    assert_eq!(fields.path, "/inbox");
    assert_eq!(fields.prefix, "/");
    assert_eq!(fields.name, "inbox");
    assert_eq!(fields.depth, 1);
}

#[test]
fn derive_of_empty_and_bare_separators() {
    for raw in ["", "/", "///"] {
        let fields = derive_fields(raw);
        assert_eq!(fields.path, "/");
        assert_eq!(fields.prefix, "/");
        assert_eq!(fields.name, "");
        assert_eq!(fields.depth, 1);
    }
}

#[test]
fn derive_keeps_empty_inner_segments() {
    let fields = derive_fields("a//b");
    assert_eq!(fields.path, "/a//b");
    assert_eq!(fields.prefix, "/a/");
    assert_eq!(fields.name, "b");
    assert_eq!(fields.depth, 3);
}

#[test]
fn derive_deeply_nested() {
    let fields = derive_fields("/a/b/c/d/e/f/g/h/");
    assert_eq!(fields.path, "/a/b/c/d/e/f/g/h");
    assert_eq!(fields.prefix, "/a/b/c/d/e/f/g");
    assert_eq!(fields.name, "h");
    assert_eq!(fields.depth, 8);
}

#[test]
fn derive_counts_characters_not_bytes() {
    let fields = derive_fields("/日本語/タグ/");
    assert_eq!(fields.path, "/日本語/タグ");
    assert_eq!(fields.prefix, "/日本語");
    assert_eq!(fields.name, "タグ");
    assert_eq!(fields.depth, 2);
}

#[test]
fn checked_from_path_agrees_with_from_path() {
    let checked = Tag::checked_from_path("/top/subpath/tag/".to_string());
    assert_eq!(checked, Some(Tag::from_path("/top/subpath/tag/".to_string())));
}

#[test]
fn parent_path_drops_the_last_segment() {
    assert_eq!(parent_path("/work/project/todo"), "/work/project");
    assert_eq!(parent_path("/work"), "");
    assert_eq!(parent_path("work"), "");
    assert_eq!(parent_path(""), "");
    assert_eq!(parent_path("/a/b/"), "/a/b");
}

#[test]
fn tagged_type_table() {
    assert_eq!(TaggedType::Bookmark.table(), "tagged_bookmark");
}

#[test]
fn duplicate_copies_every_field() {
    let tag = Tag {
        id: "01".to_string(),
        label: Some("Work".to_string()),
        parent_id: Some("00".to_string()),
        value_type: Some("text".to_string()),
        user_id: "u1".to_string(),
        ..Tag::from_path("/work/project".to_string())
    };
    assert_eq!(tag.duplicate(), tag);
    let item = TaggedItem {
        id: "i".to_string(),
        ref_id: "r".to_string(),
        tag_id: "t".to_string(),
        value: Some("v".to_string()),
    };
    assert_eq!(item.duplicate(), item);
    assert!(item.same_key(&TaggedItem { id: "other".to_string(), value: None, ..item.duplicate() }));
    assert!(!item.same_key(&TaggedItem { tag_id: "t2".to_string(), ..item.duplicate() }));
}
