use achiet::api::bookmark::{
    delete_bookmark_query, find_bookmark_one, find_bookmarks, find_bookmarks_query,
    insert_bookmark_query, BookmarkRequest, BookmarkResponse, SearchBookmark,
};
use achiet::api::metatag::{
    extract_from_opengraph, extract_from_plain, extract_from_twitter, value_from_select, Element,
    Metatag, MetatagsRequest, Page,
};
use achiet::api::router::Config;
use achiet::api::state::AuthenticationState;
use achiet::api::tag::{
    attach, pair, sync_tagged_data_from_ref, sync_tagged_data_from_ref_query, wanted_tags,
    CreateTagRequest, TagResponse, TaggedData, TaggedResult, UpdatedTagRequest,
};
use achiet::api::user::{
    bearer_token, delete_user_query, find_user_by_id, find_users, find_users_query,
    insert_user_query, Claims, CreateUserRequest, SearchUser, TokenResponse, UpdateUserRequest,
    UserResponse,
};
use achiet::database::query::{Column, Query, Row};
use achiet::database::value::Value;
use achiet::error::Error;
use achiet::hash::verify_password;
use achiet::model::bookmark::Bookmark;
use achiet::model::resource::Resource;
use achiet::model::tag::{Tag, TaggedItem, TaggedType};
use achiet::model::user::User;
use achiet::util::{new_uid, now, Timestamp};

fn text(s: &str) -> Value {
    Value::String(Some(s.to_string()))
}

fn some(s: &str) -> Option<String> {
    Some(s.to_string())
}

fn built(query: Query) -> (String, Vec<Value>) {
    let (sql, args) = query.build();
    (sql, args.0)
}

fn at(secs: i64) -> Timestamp {
    Timestamp { secs, nanos: 0 }
}

fn bookmark_row(id: &str) -> Row {
    Row {
        columns: vec![
            Column("id".to_string(), text(id)),
            Column("user_id".to_string(), text("u1")),
            Column("title".to_string(), Value::String(None)),
            Column("url".to_string(), Value::String(None)),
            Column("description".to_string(), Value::String(None)),
            Column("resource_id".to_string(), Value::String(None)),
            Column("created_at".to_string(), Value::DateTime(None)),
            Column("updated_at".to_string(), Value::DateTime(None)),
        ],
    }
}

fn user_row(id: &str) -> Row {
    Row {
        columns: vec![
            Column("id".to_string(), text(id)),
            Column("username".to_string(), text("ann")),
            Column("password".to_string(), text("hash")),
            Column("email".to_string(), Value::String(None)),
            Column("role".to_string(), text("user")),
            Column("created_at".to_string(), Value::DateTime(None)),
            Column("updated_at".to_string(), Value::DateTime(None)),
        ],
    }
}

#[test]
fn find_bookmarks_statement_follows_the_search() {
    let (sql, args) = built(find_bookmarks_query(&SearchBookmark::default()));
    assert_eq!(sql, "SELECT * FROM bookmark");
    assert!(args.is_empty());
    let search = SearchBookmark { id: some("b1"), user_id: some("u1") };
    let (sql, args) = built(find_bookmarks_query(&search));
    assert_eq!(sql, "SELECT * FROM bookmark WHERE id = ? AND user_id = ?");
    assert_eq!(args, vec![text("b1"), text("u1")]);
    let search = SearchBookmark { id: None, user_id: some("u1") };
    let (sql, args) = built(find_bookmarks_query(&search));
    assert_eq!(sql, "SELECT * FROM bookmark WHERE user_id = ?");
    assert_eq!(args, vec![text("u1")]);
}

#[test]
fn find_bookmark_one_takes_the_last_row() {
    let rows = vec![bookmark_row("b1"), bookmark_row("b2")];
    assert_eq!(find_bookmarks(&rows).unwrap().len(), 2);
    assert_eq!(find_bookmark_one(&rows).unwrap().id, "b2");
    assert_eq!(find_bookmark_one(&Vec::new()), Err(Error::NotFound));
    assert_eq!(find_bookmark_one(&vec![user_row("u1")]), Err(Error::DecodeFailure));
    assert_eq!(find_bookmarks(&vec![bookmark_row("b1"), user_row("u1")]), Err(Error::DecodeFailure));
}

#[test]
fn bookmark_request_makes_and_amends_a_bookmark() {
    let request = BookmarkRequest {
        title: some("T"),
        url: some("https://example.org"),
        description: None,
        tags: None,
    };
    let bookmark = request.bookmark("b1".to_string(), "u1".to_string(), at(5));
    assert_eq!(
        bookmark,
        Bookmark {
            id: "b1".to_string(),
            user_id: "u1".to_string(),
            title: some("T"),
            url: some("https://example.org"),
            description: None,
            resource_id: None,
            created_at: Some(at(5)),
            updated_at: Some(at(5)),
        }
    );
    assert_eq!(bookmark.duplicate(), bookmark);
    let (sql, args) = built(insert_bookmark_query(&bookmark));
    assert_eq!(
        sql,
        "INSERT INTO bookmark (id, user_id, title, url, description, created_at, updated_at) \
         VALUES (?, ?, ?, ?, ?, ?, ?)"
    );
    assert_eq!(
        args,
        vec![
            text("b1"),
            text("u1"),
            text("T"),
            text("https://example.org"),
            Value::String(None),
            Value::DateTime(Some(at(5))),
            Value::DateTime(Some(at(5))),
        ]
    );

    let change = BookmarkRequest { title: None, url: None, description: some("D"), tags: None };
    let amended = change.amend(bookmark.clone(), at(9));
    assert_eq!(
        amended,
        Bookmark { description: some("D"), updated_at: Some(at(9)), ..bookmark.clone() }
    );
    let (sql, args) = built(change.update_query(&"b1".to_string(), at(9)));
    assert_eq!(sql, "UPDATE bookmark SET updated_at = ?, description = ? WHERE id = ?");
    assert_eq!(args, vec![Value::DateTime(Some(at(9))), text("D"), text("b1")]);

    let all = BookmarkRequest {
        title: some("T2"),
        url: some("U2"),
        description: some("D2"),
        tags: None,
    };
    let (sql, args) = built(all.update_query(&"b1".to_string(), at(9)));
    assert_eq!(
        sql,
        "UPDATE bookmark SET updated_at = ?, url = ?, title = ?, description = ? WHERE id = ?"
    );
    assert_eq!(
        args,
        vec![Value::DateTime(Some(at(9))), text("U2"), text("T2"), text("D2"), text("b1")]
    );

    let (sql, args) = built(delete_bookmark_query(&"b1".to_string()));
    assert_eq!(sql, "DELETE FROM bookmark WHERE id = ?");
    assert_eq!(args, vec![text("b1")]);
}

#[test]
fn bookmark_request_wants_a_tag_for_each_path() {
    let request = BookmarkRequest {
        title: None,
        url: None,
        description: None,
        tags: Some(vec!["work/todo".to_string(), "/home/".to_string()]),
    };
    let data = request.tagged_data(&"b1".to_string()).unwrap();
    assert_eq!(
        data,
        vec![
            TaggedData(
                Tag::from_path("work/todo".to_string()),
                TaggedItem { ref_id: "b1".to_string(), ..TaggedItem::default() },
            ),
            TaggedData(
                Tag::from_path("/home/".to_string()),
                TaggedItem { ref_id: "b1".to_string(), ..TaggedItem::default() },
            ),
        ]
    );
    let none = BookmarkRequest { title: None, url: None, description: None, tags: None };
    assert_eq!(none.tagged_data(&"b1".to_string()), Some(Vec::new()));
}

#[test]
fn bookmark_response_shows_the_paths_of_its_tags() {
    let bookmark = Bookmark {
        id: "b1".to_string(),
        title: some("T"),
        created_at: Some(at(1)),
        ..Bookmark::default()
    };
    let plain = BookmarkResponse::from_bookmark(bookmark.clone());
    assert_eq!(
        plain,
        BookmarkResponse {
            id: "b1".to_string(),
            title: some("T"),
            url: None,
            description: None,
            tags: Vec::new(),
            created_at: Some(at(1)),
            updated_at: None,
        }
    );
    let data = vec![
        TaggedData(Tag::from_path("/b".to_string()), TaggedItem::default()),
        TaggedData(Tag::from_path("/a".to_string()), TaggedItem::default()),
    ];
    let shown = BookmarkResponse::with_tags(bookmark, data);
    assert_eq!(shown.tags, vec!["/b".to_string(), "/a".to_string()]);
    assert_eq!(BookmarkResponse { tags: Vec::new(), ..shown }, plain);
}

#[test]
fn tag_requests_make_and_amend_tags() {
    let request = CreateTagRequest {
        path: "/work/project/".to_string(),
        label: some("Project"),
        value_type: None,
    };
    let tag = request.tag("u1".to_string()).unwrap();
    assert_eq!(
        tag,
        Tag {
            user_id: "u1".to_string(),
            label: some("Project"),
            ..Tag::from_path("/work/project".to_string())
        }
    );
    let change = UpdatedTagRequest { path: None, label: None, value_type: some("text") };
    let amended = change.amend(tag.clone());
    assert_eq!(amended, Tag { value_type: some("text"), ..tag.clone() });
    let change = UpdatedTagRequest { path: some("/ignored"), label: some("P"), value_type: None };
    assert_eq!(change.amend(amended.clone()), Tag { label: some("P"), ..amended.clone() });

    let response = TagResponse::from_tag(amended.clone());
    assert_eq!(response.id, amended.id);
    assert_eq!(response.path, "/work/project");
    assert_eq!(response.prefix, "/work");
    assert_eq!(response.name, "project");
    assert_eq!(response.label, some("Project"));
    assert_eq!(response.value_type, some("text"));
    assert_eq!(response.depth, 2);
    assert_eq!(response.user_id, "u1");
}

fn resolved() -> Vec<Tag> {
    vec![
        Tag { id: "t1".to_string(), user_id: "u1".to_string(), ..Tag::from_path("/a".to_string()) },
        Tag { id: "t2".to_string(), user_id: "u1".to_string(), ..Tag::from_path("/b".to_string()) },
    ]
}

fn wanted_data() -> Vec<TaggedData> {
    vec![
        TaggedData(
            Tag::from_path("/b".to_string()),
            TaggedItem { ref_id: "b1".to_string(), value: some("v"), ..TaggedItem::default() },
        ),
        TaggedData(Tag::from_path("/missing".to_string()), TaggedItem::default()),
        TaggedData(Tag::from_path("/a".to_string()), TaggedItem::default()),
    ]
}

#[test]
fn attach_uses_the_identifiers_of_the_resolved_tags() {
    let owner = "u1".to_string();
    assert_eq!(
        wanted_tags(&wanted_data()),
        vec![
            Tag::from_path("/b".to_string()),
            Tag::from_path("/missing".to_string()),
            Tag::from_path("/a".to_string()),
        ]
    );
    let items = attach(&owner, &"b1".to_string(), &resolved(), &wanted_data());
    assert_eq!(
        items,
        vec![
            TaggedItem {
                id: String::new(),
                ref_id: "b1".to_string(),
                tag_id: "t2".to_string(),
                value: some("v"),
            },
            TaggedItem {
                id: String::new(),
                ref_id: "b1".to_string(),
                tag_id: "t1".to_string(),
                value: None,
            },
        ]
    );
    assert!(attach(&"u2".to_string(), &"b1".to_string(), &resolved(), &wanted_data()).is_empty());
}

#[test]
fn pair_joins_items_with_their_tags() {
    let items = vec![
        TaggedItem { id: "i1".to_string(), ref_id: "b1".to_string(), tag_id: "t2".to_string(), value: None },
        TaggedItem { id: "i2".to_string(), ref_id: "b2".to_string(), tag_id: "t1".to_string(), value: None },
        TaggedItem { id: "i3".to_string(), ref_id: "b1".to_string(), tag_id: "gone".to_string(), value: None },
        TaggedItem { id: "i4".to_string(), ref_id: "b1".to_string(), tag_id: "t1".to_string(), value: None },
    ];
    let result = pair(&resolved(), &items);
    assert_eq!(
        result,
        TaggedResult {
            data: vec![
                TaggedData(resolved()[1].clone(), items[0].clone()),
                TaggedData(resolved()[0].clone(), items[1].clone()),
                TaggedData(resolved()[0].clone(), items[3].clone()),
            ],
        }
    );
    assert_eq!(
        result.find_tags("b1".to_string()),
        vec![
            TaggedData(resolved()[1].clone(), items[0].clone()),
            TaggedData(resolved()[0].clone(), items[3].clone()),
        ]
    );
    assert_eq!(
        result.find_tags("b2".to_string()),
        vec![TaggedData(resolved()[0].clone(), items[1].clone())]
    );
    assert!(result.find_tags("b3".to_string()).is_empty());
    assert_eq!(result.data[0].duplicate(), result.data[0]);
}

#[test]
fn sync_tagged_data_attaches_and_reconciles() {
    let owner = "u1".to_string();
    let ref_id = "b1".to_string();
    let (sql, args) = built(sync_tagged_data_from_ref_query(
        &owner,
        TaggedType::Bookmark,
        &ref_id,
        &resolved(),
        &wanted_data(),
    ));
    assert_eq!(sql, "SELECT * FROM tagged_bookmark WHERE ref_id IN (?)");
    assert_eq!(args, vec![text("b1")]);

    let stored = Row {
        columns: vec![
            Column("id".to_string(), text("i1")),
            Column("ref_id".to_string(), text("b1")),
            Column("tag_id".to_string(), text("t1")),
            Column("value".to_string(), text("old")),
        ],
    };
    let synced = sync_tagged_data_from_ref(
        &owner,
        TaggedType::Bookmark,
        &ref_id,
        &resolved(),
        &wanted_data(),
        &vec![stored],
    )
    .unwrap();
    assert_eq!(synced.items.len(), 2);
    assert_eq!(synced.sync.plan.create.len(), 1);
    assert_eq!(synced.sync.plan.create[0].tag_id, "t2");
    assert_eq!(synced.sync.plan.create[0].value, some("v"));
    assert_eq!(
        synced.sync.plan.update,
        vec![TaggedItem {
            id: "i1".to_string(),
            ref_id: "b1".to_string(),
            tag_id: "t1".to_string(),
            value: None,
        }]
    );
    assert!(synced.sync.plan.delete.is_empty());
    assert_eq!(synced.sync.script.remaining(), 2);

    let failed = sync_tagged_data_from_ref(
        &owner,
        TaggedType::Bookmark,
        &ref_id,
        &resolved(),
        &wanted_data(),
        &vec![Row { columns: Vec::new() }],
    );
    assert_eq!(failed.err(), Some(Error::DecodeFailure));
}

#[test]
fn find_users_statement_follows_the_search() {
    let (sql, _) = built(find_users_query(&SearchUser::default()));
    assert_eq!(sql, "SELECT * FROM user");
    let search = SearchUser { id: some("u1"), username: some("ann"), email: None, role: some("admin") };
    let (sql, args) = built(find_users_query(&search));
    assert_eq!(sql, "SELECT * FROM user WHERE id IN (?) AND username IN (?) AND role IN (?)");
    assert_eq!(args, vec![text("u1"), text("ann"), text("admin")]);
    let search = SearchUser { email: some("a@b"), ..SearchUser::default() };
    let (sql, args) = built(find_users_query(&search));
    assert_eq!(sql, "SELECT * FROM user WHERE email IN (?)");
    assert_eq!(args, vec![text("a@b")]);
}

#[test]
fn find_user_by_id_takes_the_last_row() {
    let rows = vec![user_row("u1"), user_row("u2")];
    assert_eq!(find_users(&rows).unwrap().len(), 2);
    assert_eq!(find_user_by_id(&rows).unwrap().id, "u2");
    assert_eq!(find_user_by_id(&Vec::new()), Err(Error::NotFound));
    assert_eq!(find_user_by_id(&vec![bookmark_row("b1")]), Err(Error::DecodeFailure));
}

#[test]
fn user_requests_make_and_amend_users() {
    let request = CreateUserRequest {
        username: "ann".to_string(),
        password: "secret".to_string(),
        email: some("ann@example.org"),
        role: None,
    };
    let user = request.user("u1".to_string(), "hash".to_string(), at(3));
    assert_eq!(
        user,
        User {
            id: "u1".to_string(),
            username: "ann".to_string(),
            password: "hash".to_string(),
            email: some("ann@example.org"),
            role: "user".to_string(),
            created_at: Some(at(3)),
            updated_at: Some(at(3)),
        }
    );
    let admin = CreateUserRequest { role: some("admin"), ..request.clone() };
    assert_eq!(admin.user("u1".to_string(), "hash".to_string(), at(3)).role, "admin");

    let (sql, args) = built(insert_user_query(&user));
    assert_eq!(
        sql,
        "INSERT INTO user (id, username, password, email, role, created_at, updated_at) \
         VALUES (?, ?, ?, ?, ?, ?, ?)"
    );
    assert_eq!(
        args,
        vec![
            text("u1"),
            text("ann"),
            text("hash"),
            text("ann@example.org"),
            text("user"),
            Value::DateTime(Some(at(3))),
            Value::DateTime(Some(at(3))),
        ]
    );

    let change = UpdateUserRequest {
        username: None,
        password: some("next"),
        email: None,
        role: some("admin"),
    };
    let hashed = change.hashed_password().unwrap();
    let hash = hashed.clone().unwrap();
    assert_eq!(verify_password("next".to_string(), hash.clone()), Ok(()));
    let amended = change.amend(user.clone(), &hashed, at(8));
    assert_eq!(
        amended,
        User {
            password: hash.clone(),
            role: "admin".to_string(),
            updated_at: Some(at(8)),
            ..user.clone()
        }
    );
    let (sql, args) = built(change.update_query(&"u1".to_string(), &hashed, at(8)));
    assert_eq!(sql, "UPDATE user SET updated_at = ?, password = ?, role = ? WHERE id = ?");
    assert_eq!(
        args,
        vec![Value::DateTime(Some(at(8))), text(&hash), text("admin"), text("u1")]
    );

    let nothing = UpdateUserRequest { username: None, password: None, email: None, role: None };
    assert_eq!(nothing.hashed_password(), Ok(None));
    assert_eq!(nothing.amend(user.clone(), &None, at(8)), User { updated_at: Some(at(8)), ..user.clone() });
    let (sql, _) = built(nothing.update_query(&"u1".to_string(), &None, at(8)));
    assert_eq!(sql, "UPDATE user SET updated_at = ? WHERE id = ?");

    let (sql, args) = built(delete_user_query(&"u1".to_string()));
    assert_eq!(sql, "DELETE FROM user WHERE id = ?");
    assert_eq!(args, vec![text("u1")]);

    assert_eq!(
        UserResponse::from_user(user),
        UserResponse {
            id: "u1".to_string(),
            username: "ann".to_string(),
            email: some("ann@example.org"),
            role: "user".to_string(),
            created_at: Some(at(3)),
            updated_at: Some(at(3)),
        }
    );
}

#[test]
fn claims_expire_ninety_days_after_issue() {
    let user = User { id: "u1".to_string(), ..User::default() };
    assert_eq!(
        Claims::from_user(&user, at(1_700_000_000)),
        Some(Claims { exp: 1_707_776_000, user_id: "u1".to_string() })
    );
    assert_eq!(
        Claims::from_user(&user, at(0)),
        Some(Claims { exp: 7_776_000, user_id: "u1".to_string() })
    );
    assert_eq!(
        Claims::from_user(&user, at(-7_776_000)),
        Some(Claims { exp: 0, user_id: "u1".to_string() })
    );
    assert_eq!(Claims::from_user(&user, at(-7_776_001)), None);
    assert_eq!(Claims::from_user(&user, at(i64::MIN)), None);
    let token = TokenResponse { access_token: "t".to_string() };
    assert_eq!(token.access_token, "t");
}

#[test]
fn bearer_token_reads_the_authorization_header() {
    assert_eq!(bearer_token("Bearer abc.def"), some("abc.def"));
    assert_eq!(bearer_token("bearer abc"), some("abc"));
    assert_eq!(bearer_token("BEARER abc def"), some("abc def"));
    assert_eq!(bearer_token("Bearer "), some(""));
    assert_eq!(bearer_token("Bearer"), None);
    assert_eq!(bearer_token("Basic abc"), None);
    assert_eq!(bearer_token(" Bearer abc"), None);
    assert_eq!(bearer_token(""), None);
}

#[test]
fn authentication_state_gives_the_user() {
    let user = User { id: "u1".to_string(), username: "ann".to_string(), ..User::default() };
    let state = AuthenticationState::User(user.clone());
    assert_eq!(state.user(), Some(user));
    assert_eq!(state.user_id(), some("u1"));
    assert_eq!(AuthenticationState::Guest.user(), None);
    assert_eq!(AuthenticationState::Guest.user_id(), None);
    assert_eq!(Config::default().jwt_secret, "");
}

fn element(text: Option<&str>, content: Option<&str>) -> Option<Element> {
    Some(Element { text: text.map(|t| t.to_string()), content: content.map(|c| c.to_string()) })
}

#[test]
fn plain_description_trims_the_title() {
    let title = element(Some("  A page \n"), None);
    let description = element(None, Some("About"));
    assert_eq!(
        extract_from_plain(&title, &description),
        Some(Metatag { title: some("A page"), description: some("About"), image_url: None })
    );
    assert_eq!(
        extract_from_plain(&title, &None),
        Some(Metatag { title: some("A page"), description: some(""), image_url: None })
    );
    assert_eq!(
        extract_from_plain(&None, &description),
        Some(Metatag { title: some(""), description: some("About"), image_url: None })
    );
    assert_eq!(
        extract_from_plain(&element(None, None), &None),
        Some(Metatag { title: some(""), description: some(""), image_url: None })
    );
    assert_eq!(extract_from_plain(&None, &None), None);
    assert_eq!(value_from_select(&description), "About");
    assert_eq!(value_from_select(&title), "");
    assert_eq!(value_from_select(&None), "");
}

#[test]
fn vocabulary_descriptions_read_the_content() {
    let title = element(None, Some("T"));
    let image = element(None, Some("https://example.org/i.png"));
    assert_eq!(
        extract_from_opengraph(&title, &None, &image),
        Some(Metatag {
            title: some("T"),
            description: some(""),
            image_url: some("https://example.org/i.png"),
        })
    );
    assert_eq!(extract_from_opengraph(&None, &None, &None), None);
    assert_eq!(
        extract_from_twitter(&None, &title, &None),
        Some(Metatag { title: some(""), description: some("T"), image_url: some("") })
    );
    assert_eq!(extract_from_twitter(&None, &None, &None), None);
}

#[test]
fn page_prefers_plain_then_opengraph_then_twitter() {
    let empty = Page {
        title: None,
        description: None,
        opengraph_title: None,
        opengraph_description: None,
        opengraph_image: None,
        twitter_title: None,
        twitter_description: None,
        twitter_image: None,
    };
    assert_eq!(empty.extract(), None);
    assert_eq!(Metatag::default(), Metatag { title: None, description: None, image_url: None });

    let twitter = Page { twitter_title: element(None, Some("tw")), ..empty.clone() };
    assert_eq!(
        twitter.extract(),
        Some(Metatag { title: some("tw"), description: some(""), image_url: some("") })
    );
    let opengraph = Page { opengraph_image: element(None, Some("og")), ..twitter.clone() };
    assert_eq!(
        opengraph.extract(),
        Some(Metatag { title: some(""), description: some(""), image_url: some("og") })
    );
    let plain = Page { title: element(Some(" t "), None), ..opengraph };
    assert_eq!(
        plain.extract(),
        Some(Metatag { title: some("t"), description: some(""), image_url: None })
    );
    let request = MetatagsRequest { url: "https://example.org".to_string() };
    assert_eq!(request.url, "https://example.org");
}

#[test]
fn clock_and_identifiers() {
    let first = new_uid();
    let second = new_uid();
    assert_eq!(first.chars().count(), 26);
    assert_ne!(first, second);
    let instant = now();
    assert!(instant.secs > 1_600_000_000);
    assert!(instant.nanos < 2_000_000_000);
    let resource = Resource {
        id: "r".to_string(),
        url: "https://example.org/a?b".to_string(),
        protocol: "https".to_string(),
        host: "example.org".to_string(),
        path: some("/a"),
        query: some("b"),
        created_at: Some(instant),
        updated_at: None,
    };
    assert_eq!(resource.clone(), resource);
}
