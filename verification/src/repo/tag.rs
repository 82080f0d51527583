//! Tags in the store: the statements that read and write them, and the
//! synchronisation of wanted tags with the stored ones.

use crate::database::query::{
    empty_query, groups_of, groups_query, list_of, list_query, rows_of, ColumnView, Query,
    QueryView, Row,
};
use crate::database::value::{value_views, Value, ValueView};
use crate::error::Error;
use crate::model::tag::{tag_decodes, tag_in, Tag, TagView, TAG_TABLE};
use crate::repo::script::{query_views, Script};
use crate::repo::tagged::{row_views, text_values, unless_empty, values_of_texts};
use crate::resolve::{
    distinct_paths, lemma_path_position_is, one_tag_per_wanted_path, owned, owns, paths_of,
    planted, resolve, resolving_again_gives_the_same_tags, stored_tags_are_kept, tag_views,
    Resolution,
};
use crate::util::{new_uid, uid_len};
use crate::text::{copy_text, text_of, texts_of};
use crate::util::Timestamp;
use vstd::prelude::*;

verus! {

/// What to look for among the stored tags. A field that is `None` does not
/// restrict the search.
#[derive(Debug, Clone, PartialEq, Eq)]
pub struct SearchTag {
    /// The identifiers among which that of the tag must be.
    pub id_vec: Option<Vec<String>>,
    /// The owner of the tag.
    pub user_id: Option<String>,
    /// The paths among which that of the tag must be.
    pub path_vec: Option<Vec<String>>,
}

/// What a search holds, with its texts as sequences of characters.
pub struct SearchTagView {
    pub id_vec: Option<Seq<Seq<char>>>,
    pub user_id: Option<Seq<char>>,
    pub path_vec: Option<Seq<Seq<char>>>,
}

/// The characters of each of an optional list of texts.
pub open spec fn optional_texts_of(texts: Option<Vec<String>>) -> Option<Seq<Seq<char>>> {
    match texts {
        Some(t) => Some(texts_of(t@)),
        None => None,
    }
}

impl View for SearchTag {
    type V = SearchTagView;

    open spec fn view(&self) -> SearchTagView {
        SearchTagView {
            id_vec: optional_texts_of(self.id_vec),
            user_id: text_of(self.user_id),
            path_vec: optional_texts_of(self.path_vec),
        }
    }
}

impl Default for SearchTag {
    fn default() -> (search: SearchTag)
        ensures
            search@ == (SearchTagView { id_vec: None, user_id: None, path_vec: None }),
    {
        SearchTag { id_vec: None, user_id: None, path_vec: None }
    }
}

/// The condition that a column holds one of `texts`: `head`, which names the
/// column and opens the list, the placeholders, and the closing parenthesis.
pub open spec fn among(head: Seq<char>, texts: Seq<Seq<char>>) -> QueryView {
    empty_query().with_piece(head).with_query(list_query(text_values(texts))).with_piece(")"@)
}

/// `conditions` with the condition that a column holds one of `texts`, where
/// there are any.
pub open spec fn restricted(conditions: QueryView, head: Seq<char>, texts: Option<Seq<Seq<char>>>) -> QueryView {
    match texts {
        Some(t) => conditions.with_query(among(head, t)),
        None => conditions,
    }
}

/// The conditions of a search, to be joined by `AND`: on the identifier, on
/// the owner and on the path, each only where the search restricts it.
pub open spec fn conditions_of(search: SearchTagView) -> QueryView {
    let by_id = restricted(empty_query().with_separator(" AND "@), "id IN ("@, search.id_vec);
    let by_owner = match search.user_id {
        Some(owner) => by_id.with_piece("user_id = ?"@).with_value(ValueView::String(Some(owner))),
        None => by_id,
    };
    restricted(by_owner, "path IN ("@, search.path_vec)
}

/// The statement that reads the stored tags that a search selects: all tags
/// where the search restricts nothing.
pub open spec fn find_statement(search: SearchTagView) -> QueryView {
    let all = empty_query().with_piece("SELECT * FROM "@).with_piece("tag"@);
    if conditions_of(search).is_empty() {
        all
    } else {
        all.with_piece(" WHERE "@).with_query(conditions_of(search))
    }
}

/// The values bound for one tag in an insertion, column by column.
pub open spec fn inserted_values(tag: TagView) -> Seq<ValueView> {
    seq![
        ValueView::String(Some(tag.id)),
        ValueView::String(Some(tag.path)),
        ValueView::String(Some(tag.prefix)),
        ValueView::String(Some(tag.name)),
        ValueView::String(tag.label),
        ValueView::String(tag.parent_id),
        ValueView::Unsigned(Some(tag.depth)),
        ValueView::String(tag.value_type),
        ValueView::String(Some(tag.user_id)),
        ValueView::DateTime(tag.created_at),
        ValueView::DateTime(tag.updated_at),
    ]
}

/// The statement that inserts `tags`, all of them in one statement.
pub open spec fn insert_statement(tags: Seq<TagView>) -> QueryView {
    empty_query().with_piece("INSERT INTO "@).with_piece("tag"@).with_piece(
        " (id, path, prefix, name, label, parent_id, depth, value_type, user_id, created_at, updated_at) VALUES "@,
    ).with_query(groups_query(tags.map_values(|tag: TagView| inserted_values(tag)), tags.len()))
}

/// The statement that writes the fields of `tag` over the stored tag of the
/// same identifier. The identifier, the owner and the time of creation stay
/// as stored.
pub open spec fn update_statement(tag: TagView) -> QueryView {
    empty_query().with_piece("UPDATE "@).with_piece("tag"@).with_piece(
        " SET path = ?, prefix = ?, name = ?, label = ?, parent_id = ?, depth = ?, value_type = ?, updated_at = ? WHERE id = ?"@,
    ).with_value(ValueView::String(Some(tag.path))).with_value(
        ValueView::String(Some(tag.prefix)),
    ).with_value(ValueView::String(Some(tag.name))).with_value(
        ValueView::String(tag.label),
    ).with_value(ValueView::String(tag.parent_id)).with_value(
        ValueView::Unsigned(Some(tag.depth)),
    ).with_value(ValueView::String(tag.value_type)).with_value(
        ValueView::DateTime(tag.updated_at),
    ).with_value(ValueView::String(Some(tag.id)))
}

/// The statement that deletes the stored tags with the identifiers of
/// `tags`.
pub open spec fn delete_statement(tags: Seq<TagView>) -> QueryView {
    empty_query().with_piece("DELETE FROM "@).with_piece("tag"@).with_piece(
        " WHERE id IN ("@,
    ).with_query(list_query(text_values(tags.map_values(|tag: TagView| tag.id)))).with_piece(
        ")"@,
    )
}

/// Adds to `conditions` the condition that a column holds one of `texts`,
/// where there are any.
fn restrict(conditions: &mut Query, head: &str, texts: &Option<Vec<String>>)
    ensures
        final(conditions)@ == restricted(old(conditions)@, head@, optional_texts_of(*texts)),
{
    match texts {
        Some(t) => {
            let mut condition = Query::new();
            condition.push_str(head);
            condition.append(list_of(values_of_texts(t)));
            condition.push_str(")");
            conditions.append(condition);
        },
        None => {},
    }
}

/// The statement that reads the stored tags that `search` selects.
pub fn find_tags_query(search: &SearchTag) -> (query: Query)
    ensures
        query@ == find_statement(search@),
{
    let mut conditions = Query::new();
    conditions.set_separator(" AND ");
    restrict(&mut conditions, "id IN (", &search.id_vec);
    match &search.user_id {
        Some(owner) => {
            conditions.push_str("user_id = ?");
            conditions.bind(Value::String(Some(owner.clone())));
        },
        None => {},
    }
    restrict(&mut conditions, "path IN (", &search.path_vec);
    let mut query = Query::new();
    query.push_str("SELECT * FROM ");
    query.push_str(TAG_TABLE);
    if !conditions.is_empty() {
        query.push_str(" WHERE ");
        query.append(conditions);
    }
    query
}

/// The values that bind `tag` in an insertion.
fn values_of_tag(tag: &Tag) -> (values: Vec<Value>)
    ensures
        value_views(values@) == inserted_values(tag@),
{
    let mut values: Vec<Value> = Vec::new();
    values.push(Value::String(Some(tag.id.clone())));
    values.push(Value::String(Some(tag.path.clone())));
    values.push(Value::String(Some(tag.prefix.clone())));
    values.push(Value::String(Some(tag.name.clone())));
    values.push(Value::String(copy_text(&tag.label)));
    values.push(Value::String(copy_text(&tag.parent_id)));
    values.push(Value::Unsigned(Some(tag.depth)));
    values.push(Value::String(copy_text(&tag.value_type)));
    values.push(Value::String(Some(tag.user_id.clone())));
    values.push(Value::DateTime(tag.created_at));
    values.push(Value::DateTime(tag.updated_at));
    proof {
        assert(value_views(values@) =~= inserted_values(tag@));
    }
    values
}

/// The statement that inserts `tags`, or none where there is nothing to
/// insert.
pub fn create_tags_query(tags: &Vec<Tag>) -> (query: Option<Query>)
    ensures
        query is None <==> tags@.len() == 0,
        query is Some ==> query->0@ == insert_statement(tag_views(tags@)),
{
    if tags.len() == 0 {
        return None;
    }
    let mut rows: Vec<Vec<Value>> = Vec::new();
    let mut i: usize = 0;
    while i < tags.len()
        invariant
            i <= tags.len(),
            rows.len() == i,
            forall|k: int|
                0 <= k < i ==> value_views((#[trigger] rows@[k])@) == inserted_values(tags@[k]@),
        decreases tags.len() - i,
    {
        rows.push(values_of_tag(&tags[i]));
        i = i + 1;
    }
    proof {
        assert(rows_of(rows@) =~= tag_views(tags@).map_values(
            |tag: TagView| inserted_values(tag),
        ));
    }
    let mut query = Query::new();
    query.push_str("INSERT INTO ");
    query.push_str(TAG_TABLE);
    query.push_str(
        " (id, path, prefix, name, label, parent_id, depth, value_type, user_id, created_at, updated_at) VALUES ",
    );
    query.append(groups_of(&rows));
    Some(query)
}

/// The statement that writes the fields of `tag` over the stored tag of the
/// same identifier.
pub fn update_tag_query(tag: &Tag) -> (query: Query)
    ensures
        query@ == update_statement(tag@),
{
    let mut query = Query::new();
    query.push_str("UPDATE ");
    query.push_str(TAG_TABLE);
    query.push_str(
        " SET path = ?, prefix = ?, name = ?, label = ?, parent_id = ?, depth = ?, value_type = ?, updated_at = ? WHERE id = ?",
    );
    query.bind(Value::String(Some(tag.path.clone())));
    query.bind(Value::String(Some(tag.prefix.clone())));
    query.bind(Value::String(Some(tag.name.clone())));
    query.bind(Value::String(copy_text(&tag.label)));
    query.bind(Value::String(copy_text(&tag.parent_id)));
    query.bind(Value::Unsigned(Some(tag.depth)));
    query.bind(Value::String(copy_text(&tag.value_type)));
    query.bind(Value::DateTime(tag.updated_at));
    query.bind(Value::String(Some(tag.id.clone())));
    query
}

/// The statements that update `tags`, one for each tag, in order.
pub fn update_tags_queries(tags: &Vec<Tag>) -> (queries: Vec<Query>)
    ensures
        query_views(queries@) == tag_views(tags@).map_values(|tag: TagView| update_statement(tag)),
{
    let mut queries: Vec<Query> = Vec::new();
    let mut i: usize = 0;
    while i < tags.len()
        invariant
            i <= tags.len(),
            queries.len() == i,
            forall|k: int| 0 <= k < i ==> (#[trigger] queries@[k])@ == update_statement(tags@[k]@),
        decreases tags.len() - i,
    {
        queries.push(update_tag_query(&tags[i]));
        i = i + 1;
    }
    proof {
        assert(query_views(queries@) =~= tag_views(tags@).map_values(
            |tag: TagView| update_statement(tag),
        ));
    }
    queries
}

/// The statement that deletes `tags`, or none where there is nothing to
/// delete.
pub fn delete_tags_query(tags: &Vec<Tag>) -> (query: Option<Query>)
    ensures
        query is None <==> tags@.len() == 0,
        query is Some ==> query->0@ == delete_statement(tag_views(tags@)),
{
    if tags.len() == 0 {
        return None;
    }
    let mut ids: Vec<Value> = Vec::new();
    let mut i: usize = 0;
    while i < tags.len()
        invariant
            i <= tags.len(),
            ids.len() == i,
            forall|k: int|
                0 <= k < i ==> (#[trigger] ids@[k])@ == ValueView::String(Some(tags@[k]@.id)),
        decreases tags.len() - i,
    {
        ids.push(Value::String(Some(tags[i].id.clone())));
        i = i + 1;
    }
    proof {
        assert(value_views(ids@) =~= text_values(
            tag_views(tags@).map_values(|tag: TagView| tag.id),
        ));
    }
    let mut query = Query::new();
    query.push_str("DELETE FROM ");
    query.push_str(TAG_TABLE);
    query.push_str(" WHERE id IN (");
    query.append(list_of(ids));
    query.push_str(")");
    Some(query)
}

/// Whether every one of `rows` holds a tag.
pub open spec fn all_decode(rows: Seq<Seq<ColumnView>>) -> bool {
    forall|i: int| 0 <= i < rows.len() ==> tag_decodes(#[trigger] rows[i])
}

/// The tags that `rows` hold, row by row.
pub open spec fn stored_tags(rows: Seq<Seq<ColumnView>>) -> Seq<TagView> {
    rows.map_values(|row: Seq<ColumnView>| tag_in(row))
}

/// The tags that the rows hold. Fails, with a decode failure, exactly where
/// some row holds none.
pub fn decode_tags(rows: &Vec<Row>) -> (made: Result<Vec<Tag>, Error>)
    ensures
        made is Ok <==> all_decode(row_views(rows@)),
        made is Ok ==> tag_views(made->Ok_0@) == stored_tags(row_views(rows@)),
        made is Err ==> made->Err_0 == Error::DecodeFailure,
{
    let ghost views = row_views(rows@);
    let mut tags: Vec<Tag> = Vec::new();
    let mut i: usize = 0;
    while i < rows.len()
        invariant
            i <= rows.len(),
            views == row_views(rows@),
            tags.len() == i,
            forall|k: int| 0 <= k < i ==> tag_decodes(#[trigger] views[k]),
            forall|k: int| 0 <= k < i ==> (#[trigger] tags@[k])@ == tag_in(views[k]),
        decreases rows.len() - i,
    {
        proof {
            assert(views[i as int] == rows@[i as int]@);
        }
        match Tag::from_row(&rows[i]) {
            Ok(tag) => {
                tags.push(tag);
            },
            Err(e) => {
                return Err(e);
            },
        }
        i = i + 1;
    }
    proof {
        assert(tag_views(tags@) =~= stored_tags(views));
    }
    Ok(tags)
}

/// The paths of `desired`, each once, in the order in which `desired` first
/// names it.
pub fn wanted_paths(desired: &Vec<Tag>) -> (paths: Vec<String>)
    ensures
        texts_of(paths@) == distinct_paths(tag_views(desired@)),
{
    let ghost views = tag_views(desired@);
    let mut paths: Vec<String> = Vec::new();
    let mut i: usize = 0;
    while i < desired.len()
        invariant
            i <= desired.len(),
            views == tag_views(desired@),
            texts_of(paths@) == distinct_paths(views.take(i as int)),
        decreases desired.len() - i,
    {
        let ghost head = views.take(i as int);
        let mut at: usize = 0;
        while at < i && desired[at].path != desired[i].path
            invariant
                at <= i < desired.len(),
                views == tag_views(desired@),
                head == views.take(i as int),
                forall|k: int| 0 <= k < at ==> (#[trigger] head[k]).path != desired@[i as int]@.path,
            decreases i - at,
        {
            proof {
                assert(head[at as int] == desired@[at as int]@);
            }
            at = at + 1;
        }
        proof {
            let next = views.take(i + 1);
            assert(next.drop_last() == head);
            assert(next.last() == desired@[i as int]@);
            if at < i {
                assert(head[at as int] == desired@[at as int]@);
            }
            lemma_path_position_is(head, desired@[i as int]@.path, at as int);
        }
        if at == i {
            let path = desired[i].path.clone();
            proof {
                assert(texts_of(paths@.push(path)) == texts_of(paths@).push(path@));
            }
            paths.push(path);
        }
        i = i + 1;
    }
    proof {
        assert(views.take(desired.len() as int) == views);
    }
    paths
}

/// The search for the tags that `owner` has at the paths of `desired`.
pub open spec fn owned_at(owner: Seq<char>, desired: Seq<TagView>) -> SearchTagView {
    SearchTagView { id_vec: None, user_id: Some(owner), path_vec: Some(distinct_paths(desired)) }
}

/// The statement that reads the stored tags that `owner` has at the paths
/// of `desired`.
pub fn sync_tags_query(owner: &String, desired: &Vec<Tag>) -> (query: Query)
    ensures
        query@ == find_statement(owned_at(owner@, tag_views(desired@))),
{
    let search = SearchTag {
        id_vec: None,
        user_id: Some(owner.clone()),
        path_vec: Some(wanted_paths(desired)),
    };
    find_tags_query(&search)
}

/// What synchronising wanted tags comes to: the resolution, and the script
/// that writes the new tags and returns the resolved ones.
#[derive(Debug)]
pub struct TagSync {
    /// The tags to create and the tags resolved.
    pub found: Resolution,
    /// The statement that inserts the new tags, where there are any, and the
    /// resolved tags.
    pub script: Script<Vec<Tag>>,
}

impl TagSync {
    /// Whether this is the synchronisation of the wanted tags `desired` of
    /// `owner` with the stored tags `existing` at `now`: the missing tags are
    /// created in one insertion, which is left out where nothing is missing,
    /// and the script returns one tag for each distinct wanted path.
    pub open spec fn synchronises(
        self,
        owner: Seq<char>,
        existing: Seq<TagView>,
        desired: Seq<TagView>,
        now: Timestamp,
    ) -> bool {
        &&& self.found.resolves(owner, existing, desired, now)
        &&& self.script.pending() == unless_empty(
            self.found.create@.len(),
            insert_statement(tag_views(self.found.create@)),
        )
        &&& tag_views(self.script.outcome()@) == tag_views(self.found.tags@)
    }
}

/// A copy of each of `tags`.
pub fn copy_tags(tags: &Vec<Tag>) -> (copy: Vec<Tag>)
    ensures
        tag_views(copy@) == tag_views(tags@),
{
    let mut copy: Vec<Tag> = Vec::new();
    let mut i: usize = 0;
    while i < tags.len()
        invariant
            i <= tags.len(),
            copy.len() == i,
            forall|k: int| 0 <= k < i ==> (#[trigger] copy@[k])@ == tags@[k]@,
        decreases tags.len() - i,
    {
        copy.push(tags[i].duplicate());
        i = i + 1;
    }
    proof {
        assert(tag_views(copy@) =~= tag_views(tags@));
    }
    copy
}

/// Synchronises the wanted tags `desired` of `owner` with the store, given
/// the rows that `sync_tags_query` read and the current time. What comes
/// back says what to write and which tags are resolved once it is written.
/// Fails, with a decode failure, exactly where some row holds no tag;
/// nothing is to be written then.
pub fn sync_tags(owner: &String, desired: &Vec<Tag>, rows: &Vec<Row>, now: Timestamp) -> (synced:
    Result<TagSync, Error>)
    ensures
        synced is Ok <==> all_decode(row_views(rows@)),
        synced is Ok ==> synced->Ok_0.synchronises(
            owner@,
            stored_tags(row_views(rows@)),
            tag_views(desired@),
            now,
        ),
        synced is Err ==> synced->Err_0 == Error::DecodeFailure,
{
    let existing = match decode_tags(rows) {
        Ok(tags) => tags,
        Err(e) => {
            return Err(e);
        },
    };
    let found = resolve(owner, &existing, desired, now);
    let mut statements: Vec<Query> = Vec::new();
    match create_tags_query(&found.create) {
        Some(query) => {
            statements.push(query);
        },
        None => {},
    }
    proof {
        assert(query_views(statements@) =~= unless_empty(
            found.create@.len(),
            insert_statement(tag_views(found.create@)),
        ));
    }
    let script = Script::new(statements, copy_tags(&found.tags));
    Ok(TagSync { found, script })
}

/// Whether `made` is `wanted` as created at `now`: each tag under an
/// identifier of the length that new identifiers have, stamped `now`, and
/// otherwise as wanted, its owner included.
pub open spec fn newly_created(made: Seq<TagView>, wanted: Seq<TagView>, now: Timestamp) -> bool {
    &&& made.len() == wanted.len()
    &&& forall|i: int|
        0 <= i < made.len() ==> {
            &&& #[trigger] made[i] == planted(wanted[i], wanted[i].user_id, made[i].id, now)
            &&& made[i].id.len() == uid_len()
        }
}

/// Creates `tags`: each gets a new identifier and is stamped `now`. The
/// script inserts them in one statement, none where there is no tag, and
/// returns them as created.
pub fn create_tags(tags: &Vec<Tag>, now: Timestamp) -> (script: Script<Vec<Tag>>)
    ensures
        newly_created(tag_views(script.outcome()@), tag_views(tags@), now),
        script.pending() == unless_empty(
            tags@.len(),
            insert_statement(tag_views(script.outcome()@)),
        ),
{
    let mut made: Vec<Tag> = Vec::new();
    let mut i: usize = 0;
    while i < tags.len()
        invariant
            i <= tags.len(),
            made.len() == i,
            forall|k: int|
                0 <= k < i ==> (#[trigger] made@[k])@ == planted(
                    tags@[k]@,
                    tags@[k]@.user_id,
                    made@[k]@.id,
                    now,
                ) && made@[k]@.id.len() == uid_len(),
        decreases tags.len() - i,
    {
        let tag = Tag {
            id: new_uid(),
            path: tags[i].path.clone(),
            prefix: tags[i].prefix.clone(),
            name: tags[i].name.clone(),
            label: copy_text(&tags[i].label),
            parent_id: copy_text(&tags[i].parent_id),
            depth: tags[i].depth,
            value_type: copy_text(&tags[i].value_type),
            user_id: tags[i].user_id.clone(),
            created_at: Some(now),
            updated_at: Some(now),
        };
        made.push(tag);
        i = i + 1;
    }
    let mut statements: Vec<Query> = Vec::new();
    match create_tags_query(&made) {
        Some(query) => {
            statements.push(query);
        },
        None => {},
    }
    proof {
        assert(query_views(statements@) =~= unless_empty(
            tags@.len(),
            insert_statement(tag_views(made@)),
        ));
        assert forall|k: int| 0 <= k < made.len() implies #[trigger] tag_views(made@)[k]
            == planted(
            tag_views(tags@)[k],
            tag_views(tags@)[k].user_id,
            tag_views(made@)[k].id,
            now,
        ) && tag_views(made@)[k].id.len() == uid_len() by {
            assert(tag_views(made@)[k] == made@[k]@);
            assert(tag_views(tags@)[k] == tags@[k]@);
        }
    }
    let outcome = copy_tags(&made);
    Script::new(statements, outcome)
}

/// Updates `tags`: the script writes each of them over the stored tag of the
/// same identifier, one statement for each tag, and returns them.
pub fn update_tags(tags: &Vec<Tag>) -> (script: Script<Vec<Tag>>)
    ensures
        tag_views(script.outcome()@) == tag_views(tags@),
        script.pending() == tag_views(tags@).map_values(|tag: TagView| update_statement(tag)),
{
    Script::new(update_tags_queries(tags), copy_tags(tags))
}

/// Deletes `tags`: the script deletes them in one statement, none where
/// there is no tag, and returns them.
pub fn delete_tags(tags: &Vec<Tag>) -> (script: Script<Vec<Tag>>)
    ensures
        tag_views(script.outcome()@) == tag_views(tags@),
        script.pending() == unless_empty(tags@.len(), delete_statement(tag_views(tags@))),
{
    let mut statements: Vec<Query> = Vec::new();
    match delete_tags_query(tags) {
        Some(query) => {
            statements.push(query);
        },
        None => {},
    }
    proof {
        assert(query_views(statements@) =~= unless_empty(
            tags@.len(),
            delete_statement(tag_views(tags@)),
        ));
    }
    Script::new(statements, copy_tags(tags))
}

/// Synchronising gives exactly one tag for each distinct wanted path,
/// whatever paths the caller named twice, each owned by the owner, and a tag
/// that the owner had stored at a wanted path is the one returned for it.
pub proof fn synchronised_tags_are_the_wanted_paths(
    synced: TagSync,
    owner: Seq<char>,
    existing: Seq<TagView>,
    desired: Seq<TagView>,
    now: Timestamp,
)
    requires
        synced.synchronises(owner, existing, desired, now),
    ensures
        paths_of(tag_views(synced.script.outcome()@)) == distinct_paths(desired),
        forall|i: int|
            0 <= i < synced.script.outcome()@.len() ==> (#[trigger] tag_views(
                synced.script.outcome()@,
            )[i]).user_id == owner,
        forall|path: Seq<char>|
            owns(existing, owner, path) ==> owned(
                existing + tag_views(synced.found.create@),
                owner,
                path,
            ) == owned(existing, owner, path),
{
    let created = tag_views(synced.found.create@);
    one_tag_per_wanted_path(owner, existing, desired, created, now);
    assert(tag_views(synced.script.outcome()@).len() == synced.script.outcome()@.len());
    assert forall|path: Seq<char>| owns(existing, owner, path) implies owned(
        existing + created,
        owner,
        path,
    ) == owned(existing, owner, path) by {
        stored_tags_are_kept(owner, existing, created, path);
    }
}

/// Synchronising again is stable: once the tags created by a first
/// synchronisation are stored, a second one of the same wanted paths for the
/// same owner writes nothing and returns the same tags, each under the
/// identifier it had.
pub proof fn synchronising_tags_again(
    first: TagSync,
    second: TagSync,
    owner: Seq<char>,
    existing: Seq<TagView>,
    desired: Seq<TagView>,
    now: Timestamp,
    later: Timestamp,
)
    requires
        first.synchronises(owner, existing, desired, now),
        second.synchronises(owner, existing + tag_views(first.found.create@), desired, later),
    ensures
        second.found.create@.len() == 0,
        second.script.pending().len() == 0,
        tag_views(second.script.outcome()@) == tag_views(first.script.outcome()@),
{
    resolving_again_gives_the_same_tags(
        owner,
        existing,
        desired,
        first.found,
        second.found,
        now,
        later,
    );
}

} // verus!
