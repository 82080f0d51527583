//! Tag associations in the store: the statements that read and write them,
//! and the synchronisation of wanted associations with the stored ones.

use crate::database::query::{
    empty_query, groups_of, groups_query, list_of, list_query, rows_of, ColumnView, Query,
    QueryView, Row,
};
use crate::database::value::{value_views, Value, ValueView};
use crate::error::Error;
use crate::model::tag::{
    tagged_item_decodes, tagged_item_in, TaggedItem, TaggedItemView, TaggedType,
};
use crate::difference::{
    all_new_are_created_in_order, distinct_keys, keys_apart, nothing_stored_only_creates,
    reconciling_with_itself_changes_nothing, rerun_after_partial_failure,
};
use crate::reconcile::{identified, item_views, reconcile, Reconciliation};
use crate::repo::script::{query_views, Script};
use crate::text::{copy_text, texts_of};
use vstd::prelude::*;

verus! {

/// Index of the first of `texts` that equals `text`, or the length of
/// `texts` where there is none.
pub open spec fn text_position(texts: Seq<Seq<char>>, text: Seq<char>) -> int
    decreases texts.len(),
{
    if texts.len() == 0 {
        0
    } else {
        let before = text_position(texts.drop_last(), text);
        if before < texts.len() - 1 {
            before
        } else if texts.last() == text {
            texts.len() - 1
        } else {
            texts.len() as int
        }
    }
}

/// The entities that the associations refer to, each once, in the order in
/// which the associations first name it.
pub open spec fn referenced(items: Seq<TaggedItemView>) -> Seq<Seq<char>>
    decreases items.len(),
{
    if items.len() == 0 {
        Seq::empty()
    } else {
        let before = referenced(items.drop_last());
        if text_position(before, items.last().ref_id) < before.len() {
            before
        } else {
            before.push(items.last().ref_id)
        }
    }
}

/// Each text as a bound value.
pub open spec fn text_values(texts: Seq<Seq<char>>) -> Seq<ValueView> {
    texts.map_values(|text: Seq<char>| ValueView::String(Some(text)))
}

/// The values bound for one association in an insertion: identifier, entity,
/// tag, value.
pub open spec fn inserted_values(item: TaggedItemView) -> Seq<ValueView> {
    seq![
        ValueView::String(Some(item.id)),
        ValueView::String(Some(item.ref_id)),
        ValueView::String(Some(item.tag_id)),
        ValueView::String(item.value),
    ]
}

/// The values bound for one association in an update: identifier, value.
pub open spec fn updated_values(item: TaggedItemView) -> Seq<ValueView> {
    seq![ValueView::String(Some(item.id)), ValueView::String(item.value)]
}

/// The values bound for one association in a deletion: its identifier.
pub open spec fn deleted_values(item: TaggedItemView) -> Seq<ValueView> {
    seq![ValueView::String(Some(item.id))]
}

/// The statement that reads the stored associations of `kind` that refer to
/// one of the entities `refs`.
pub open spec fn select_statement(kind: TaggedType, refs: Seq<Seq<char>>) -> QueryView {
    empty_query().with_piece("SELECT * FROM "@).with_piece(kind.table_name()).with_piece(
        " WHERE ref_id IN ("@,
    ).with_query(list_query(text_values(refs))).with_piece(")"@)
}

/// The statement that inserts `items`, all of them in one statement.
pub open spec fn insert_statement(kind: TaggedType, items: Seq<TaggedItemView>) -> QueryView {
    empty_query().with_piece("INSERT INTO "@).with_piece(kind.table_name()).with_piece(
        " (id, ref_id, tag_id, value) VALUES "@,
    ).with_query(
        groups_query(items.map_values(|item: TaggedItemView| inserted_values(item)), items.len()),
    )
}

/// The statement that writes the value of each of `items` over the stored
/// association of the same identifier, all of them in one statement: the
/// table is joined against the identifiers and values listed.
pub open spec fn update_statement(kind: TaggedType, items: Seq<TaggedItemView>) -> QueryView {
    empty_query().with_piece("WITH wanted (id, value) AS (VALUES "@).with_query(
        groups_query(items.map_values(|item: TaggedItemView| updated_values(item)), items.len()),
    ).with_piece(") UPDATE "@).with_piece(kind.table_name()).with_piece(
        " SET value = (SELECT wanted.value FROM wanted WHERE wanted.id = "@,
    ).with_piece(kind.table_name()).with_piece(
        ".id) WHERE EXISTS (SELECT 1 FROM wanted WHERE wanted.id = "@,
    ).with_piece(kind.table_name()).with_piece(".id)"@)
}

/// The statement that deletes the stored associations with the identifiers
/// of `items`, all of them in one statement: an association goes where the
/// identifiers listed hold its own.
pub open spec fn delete_statement(kind: TaggedType, items: Seq<TaggedItemView>) -> QueryView {
    empty_query().with_piece("WITH unwanted (id) AS (VALUES "@).with_query(
        groups_query(items.map_values(|item: TaggedItemView| deleted_values(item)), items.len()),
    ).with_piece(") DELETE FROM "@).with_piece(kind.table_name()).with_piece(
        " WHERE EXISTS (SELECT 1 FROM unwanted WHERE unwanted.id = "@,
    ).with_piece(kind.table_name()).with_piece(".id)"@)
}

/// `statement` where there is something to write, as a sequence of one or no
/// statement.
pub open spec fn unless_empty(count: nat, statement: QueryView) -> Seq<QueryView> {
    if count == 0 {
        Seq::empty()
    } else {
        seq![statement]
    }
}

/// The statements of a reconciliation, in the order in which they run: the
/// insertion, the update, the deletion. A batch that is empty has no
/// statement.
pub open spec fn statements_of(
    kind: TaggedType,
    create: Seq<TaggedItemView>,
    update: Seq<TaggedItemView>,
    delete: Seq<TaggedItemView>,
) -> Seq<QueryView> {
    unless_empty(create.len(), insert_statement(kind, create)) + unless_empty(
        update.len(),
        update_statement(kind, update),
    ) + unless_empty(delete.len(), delete_statement(kind, delete))
}

/// The view of an optional statement.
pub open spec fn statement_of(query: Option<Query>) -> Option<QueryView> {
    match query {
        Some(q) => Some(q@),
        None => None,
    }
}

/// The entities that `items` refer to, each once.
pub fn referenced_ids(items: &Vec<TaggedItem>) -> (refs: Vec<String>)
    ensures
        texts_of(refs@) == referenced(item_views(items@)),
{
    let ghost views = item_views(items@);
    let mut refs: Vec<String> = Vec::new();
    let mut i: usize = 0;
    while i < items.len()
        invariant
            i <= items.len(),
            views == item_views(items@),
            texts_of(refs@) == referenced(views.take(i as int)),
        decreases items.len() - i,
    {
        let ghost texts = texts_of(refs@);
        let mut at: usize = 0;
        let mut found = false;
        while at < refs.len() && !found
            invariant
                at <= refs.len(),
                texts == texts_of(refs@),
                i < items.len(),
                !found ==> forall|k: int| 0 <= k < at ==> (#[trigger] texts[k]) != items@[i as int]@.ref_id,
                found ==> at < refs.len() && texts[at as int] == items@[i as int]@.ref_id && forall|k: int|
                    0 <= k < at ==> (#[trigger] texts[k]) != items@[i as int]@.ref_id,
            decreases refs.len() - at + if found { 0int } else { 1int },
        {
            proof {
                assert(texts[at as int] == refs@[at as int]@);
            }
            if refs[at] == items[i].ref_id {
                found = true;
            } else {
                at = at + 1;
            }
        }
        proof {
            let next = views.take(i + 1);
            assert(next.drop_last() == views.take(i as int));
            assert(next.last() == items@[i as int]@);
            lemma_text_position_is(texts, items@[i as int]@.ref_id, at as int);
        }
        if !found {
            let id = items[i].ref_id.clone();
            proof {
                assert(texts_of(refs@.push(id)) == texts.push(id@));
            }
            refs.push(id);
        }
        i = i + 1;
    }
    proof {
        assert(views.take(items.len() as int) == views);
    }
    refs
}

/// What `text_position` finds: an index within bounds or the length, the text
/// at the index, and no such text before it.
pub proof fn lemma_text_position(texts: Seq<Seq<char>>, text: Seq<char>)
    ensures
        0 <= text_position(texts, text) <= texts.len(),
        text_position(texts, text) < texts.len() ==> texts[text_position(texts, text)] == text,
        forall|i: int| 0 <= i < text_position(texts, text) ==> (#[trigger] texts[i]) != text,
    decreases texts.len(),
{
    if texts.len() > 0 {
        let before = texts.drop_last();
        lemma_text_position(before, text);
        assert forall|i: int| 0 <= i < text_position(texts, text) implies (#[trigger] texts[i])
            != text by {
            if i < before.len() {
                assert(texts[i] == before[i]);
            }
        }
    }
}

/// An index that holds the text, with no such text before it, is what
/// `text_position` finds.
pub proof fn lemma_text_position_is(texts: Seq<Seq<char>>, text: Seq<char>, at: int)
    requires
        0 <= at <= texts.len(),
        at < texts.len() ==> texts[at] == text,
        forall|i: int| 0 <= i < at ==> (#[trigger] texts[i]) != text,
    ensures
        text_position(texts, text) == at,
{
    lemma_text_position(texts, text);
}

/// Each of `texts` as a value to bind.
pub fn values_of_texts(texts: &Vec<String>) -> (values: Vec<Value>)
    ensures
        value_views(values@) == text_values(texts_of(texts@)),
{
    let mut values: Vec<Value> = Vec::new();
    let mut i: usize = 0;
    while i < texts.len()
        invariant
            i <= texts.len(),
            values.len() == i,
            forall|k: int|
                0 <= k < i ==> (#[trigger] values@[k])@ == ValueView::String(Some(texts@[k]@)),
        decreases texts.len() - i,
    {
        values.push(Value::String(Some(texts[i].clone())));
        i = i + 1;
    }
    proof {
        assert(value_views(values@) =~= text_values(
            texts_of(texts@),
        ));
    }
    values
}

/// The statement that reads the stored associations of `kind` that refer to
/// one of the entities `refs`.
pub fn find_tagged_items_query(kind: TaggedType, refs: &Vec<String>) -> (query: Query)
    ensures
        query@ == select_statement(kind, texts_of(refs@)),
{
    let mut query = Query::new();
    query.push_str("SELECT * FROM ");
    query.push_str(kind.table());
    query.push_str(" WHERE ref_id IN (");
    query.append(list_of(values_of_texts(refs)));
    query.push_str(")");
    query
}

/// The identifiers of the tags of `items`, in order.
pub fn tag_ids_of(items: &Vec<TaggedItem>) -> (ids: Vec<String>)
    ensures
        texts_of(ids@) == item_views(items@).map_values(
            |item: TaggedItemView| item.tag_id,
        ),
{
    let mut ids: Vec<String> = Vec::new();
    let mut i: usize = 0;
    while i < items.len()
        invariant
            i <= items.len(),
            ids.len() == i,
            forall|k: int| 0 <= k < i ==> (#[trigger] ids@[k])@ == items@[k]@.tag_id,
        decreases items.len() - i,
    {
        ids.push(items[i].tag_id.clone());
        i = i + 1;
    }
    proof {
        assert(texts_of(ids@) =~= item_views(items@).map_values(
            |item: TaggedItemView| item.tag_id,
        ));
    }
    ids
}

/// The statement that reads the stored associations of `kind` that refer to
/// one of the entities that `desired` refers to.
pub fn sync_tagged_items_query(kind: TaggedType, desired: &Vec<TaggedItem>) -> (query: Query)
    ensures
        query@ == select_statement(kind, referenced(item_views(desired@))),
{
    find_tagged_items_query(kind, &referenced_ids(desired))
}

/// The rows that bind `items` in an insertion, one row for each association.
fn inserted_rows(items: &Vec<TaggedItem>) -> (rows: Vec<Vec<Value>>)
    ensures
        rows_of(rows@) == item_views(items@).map_values(
            |item: TaggedItemView| inserted_values(item),
        ),
{
    let mut rows: Vec<Vec<Value>> = Vec::new();
    let mut i: usize = 0;
    while i < items.len()
        invariant
            i <= items.len(),
            rows.len() == i,
            forall|k: int|
                0 <= k < i ==> value_views((#[trigger] rows@[k])@)
                    == inserted_values(items@[k]@),
        decreases items.len() - i,
    {
        let item = &items[i];
        let mut row: Vec<Value> = Vec::new();
        row.push(Value::String(Some(item.id.clone())));
        row.push(Value::String(Some(item.ref_id.clone())));
        row.push(Value::String(Some(item.tag_id.clone())));
        row.push(Value::String(copy_text(&item.value)));
        proof {
            assert(value_views(row@) =~= inserted_values(item@));
        }
        rows.push(row);
        i = i + 1;
    }
    proof {
        assert(rows_of(rows@) =~= item_views(items@).map_values(
            |item: TaggedItemView| inserted_values(item),
        ));
    }
    rows
}

/// The rows that bind `items` in an update, one row for each association.
fn updated_rows(items: &Vec<TaggedItem>) -> (rows: Vec<Vec<Value>>)
    ensures
        rows_of(rows@) == item_views(items@).map_values(
            |item: TaggedItemView| updated_values(item),
        ),
{
    let mut rows: Vec<Vec<Value>> = Vec::new();
    let mut i: usize = 0;
    while i < items.len()
        invariant
            i <= items.len(),
            rows.len() == i,
            forall|k: int|
                0 <= k < i ==> value_views((#[trigger] rows@[k])@)
                    == updated_values(items@[k]@),
        decreases items.len() - i,
    {
        let item = &items[i];
        let mut row: Vec<Value> = Vec::new();
        row.push(Value::String(Some(item.id.clone())));
        row.push(Value::String(copy_text(&item.value)));
        proof {
            assert(value_views(row@) =~= updated_values(item@));
        }
        rows.push(row);
        i = i + 1;
    }
    proof {
        assert(rows_of(rows@) =~= item_views(items@).map_values(
            |item: TaggedItemView| updated_values(item),
        ));
    }
    rows
}

/// The rows that bind `items` in a deletion, one row for each association.
fn deleted_rows(items: &Vec<TaggedItem>) -> (rows: Vec<Vec<Value>>)
    ensures
        rows_of(rows@) == item_views(items@).map_values(
            |item: TaggedItemView| deleted_values(item),
        ),
{
    let mut rows: Vec<Vec<Value>> = Vec::new();
    let mut i: usize = 0;
    while i < items.len()
        invariant
            i <= items.len(),
            rows.len() == i,
            forall|k: int|
                0 <= k < i ==> value_views((#[trigger] rows@[k])@)
                    == deleted_values(items@[k]@),
        decreases items.len() - i,
    {
        let mut row: Vec<Value> = Vec::new();
        row.push(Value::String(Some(items[i].id.clone())));
        proof {
            assert(value_views(row@) =~= deleted_values(items@[i as int]@));
        }
        rows.push(row);
        i = i + 1;
    }
    proof {
        assert(rows_of(rows@) =~= item_views(items@).map_values(
            |item: TaggedItemView| deleted_values(item),
        ));
    }
    rows
}

/// The statement that inserts `items`, or none where there is nothing to
/// insert.
pub fn insert_tagged_items_query(kind: TaggedType, items: &Vec<TaggedItem>) -> (query: Option<
    Query,
>)
    ensures
        query is None <==> items@.len() == 0,
        query is Some ==> query->0@ == insert_statement(kind, item_views(items@)),
{
    if items.len() == 0 {
        return None;
    }
    let rows = inserted_rows(items);
    proof {
        assert(rows_of(rows@) =~= item_views(items@).map_values(
            |item: TaggedItemView| inserted_values(item),
        ));
    }
    let mut query = Query::new();
    query.push_str("INSERT INTO ");
    query.push_str(kind.table());
    query.push_str(" (id, ref_id, tag_id, value) VALUES ");
    query.append(groups_of(&rows));
    Some(query)
}

/// The statement that updates the values of `items`, or none where there is
/// nothing to update.
pub fn update_tagged_items_query(kind: TaggedType, items: &Vec<TaggedItem>) -> (query: Option<
    Query,
>)
    ensures
        query is None <==> items@.len() == 0,
        query is Some ==> query->0@ == update_statement(kind, item_views(items@)),
{
    if items.len() == 0 {
        return None;
    }
    let rows = updated_rows(items);
    proof {
        assert(rows_of(rows@) =~= item_views(items@).map_values(
            |item: TaggedItemView| updated_values(item),
        ));
    }
    let mut query = Query::new();
    query.push_str("WITH wanted (id, value) AS (VALUES ");
    query.append(groups_of(&rows));
    query.push_str(") UPDATE ");
    query.push_str(kind.table());
    query.push_str(" SET value = (SELECT wanted.value FROM wanted WHERE wanted.id = ");
    query.push_str(kind.table());
    query.push_str(".id) WHERE EXISTS (SELECT 1 FROM wanted WHERE wanted.id = ");
    query.push_str(kind.table());
    query.push_str(".id)");
    Some(query)
}

/// The statement that deletes `items`, or none where there is nothing to
/// delete.
pub fn delete_tagged_items_query(kind: TaggedType, items: &Vec<TaggedItem>) -> (query: Option<
    Query,
>)
    ensures
        query is None <==> items@.len() == 0,
        query is Some ==> query->0@ == delete_statement(kind, item_views(items@)),
{
    if items.len() == 0 {
        return None;
    }
    let rows = deleted_rows(items);
    proof {
        assert(rows_of(rows@) =~= item_views(items@).map_values(
            |item: TaggedItemView| deleted_values(item),
        ));
    }
    let mut query = Query::new();
    query.push_str("WITH unwanted (id) AS (VALUES ");
    query.append(groups_of(&rows));
    query.push_str(") DELETE FROM ");
    query.push_str(kind.table());
    query.push_str(" WHERE EXISTS (SELECT 1 FROM unwanted WHERE unwanted.id = ");
    query.push_str(kind.table());
    query.push_str(".id)");
    Some(query)
}

/// The views of a sequence of rows.
pub open spec fn row_views(rows: Seq<Row>) -> Seq<Seq<ColumnView>> {
    rows.map_values(|row: Row| row@)
}

/// Whether every one of `rows` holds an association.
pub open spec fn all_decode(rows: Seq<Seq<ColumnView>>) -> bool {
    forall|i: int| 0 <= i < rows.len() ==> tagged_item_decodes(#[trigger] rows[i])
}

/// The associations that `rows` hold, row by row.
pub open spec fn stored_items(rows: Seq<Seq<ColumnView>>) -> Seq<
    TaggedItemView,
> {
    rows.map_values(|row: Seq<ColumnView>| tagged_item_in(row))
}

/// The associations that the rows hold. Fails, with a decode failure,
/// exactly where some row holds none.
pub fn decode_tagged_items(rows: &Vec<Row>) -> (made: Result<Vec<TaggedItem>, Error>)
    ensures
        made is Ok <==> all_decode(row_views(rows@)),
        made is Ok ==> item_views(made->Ok_0@) == stored_items(row_views(rows@)),
        made is Err ==> made->Err_0 == Error::DecodeFailure,
{
    let ghost views = row_views(rows@);
    let mut items: Vec<TaggedItem> = Vec::new();
    let mut i: usize = 0;
    while i < rows.len()
        invariant
            i <= rows.len(),
            views == row_views(rows@),
            items.len() == i,
            forall|k: int| 0 <= k < i ==> tagged_item_decodes(#[trigger] views[k]),
            forall|k: int| 0 <= k < i ==> (#[trigger] items@[k])@ == tagged_item_in(views[k]),
        decreases rows.len() - i,
    {
        proof {
            assert(views[i as int] == rows@[i as int]@);
        }
        match TaggedItem::from_row(&rows[i]) {
            Ok(item) => {
                items.push(item);
            },
            Err(e) => {
                return Err(e);
            },
        }
        i = i + 1;
    }
    proof {
        assert(item_views(items@) =~= stored_items(views));
    }
    Ok(items)
}

/// What synchronising wanted associations comes to: the three batches, and
/// the script that writes them and returns what was committed.
#[derive(Debug)]
pub struct TaggedSync {
    /// The difference between what is stored and what is wanted.
    pub plan: Reconciliation,
    /// The statements that write the difference, and the associations
    /// committed by them.
    pub script: Script<Vec<TaggedItem>>,
}

impl TaggedSync {
    /// Whether this is the synchronisation of the wanted associations
    /// `desired` of `kind` with the stored associations `existing`: the plan
    /// reconciles the two, the script runs one statement for each batch that
    /// is not empty, the insertion before the update before the deletion,
    /// and returns the created associations followed by the updated ones.
    pub open spec fn synchronises(
        self,
        kind: TaggedType,
        existing: Seq<TaggedItemView>,
        desired: Seq<TaggedItemView>,
    ) -> bool {
        &&& self.plan.reconciles(existing, desired)
        &&& self.script.pending() == statements_of(
            kind,
            item_views(self.plan.create@),
            item_views(self.plan.update@),
            item_views(self.plan.delete@),
        )
        &&& item_views(self.script.outcome()@) == self.plan.committed_views()
    }
}

/// Synchronises the wanted associations `desired` of `kind` with the store,
/// given the rows that `sync_tagged_items_query` read. The stored
/// associations are reconciled with the wanted ones by identity; what comes
/// back says what to write and what is committed once it is written. Fails,
/// with a decode failure, exactly where some row holds no association;
/// nothing is to be written then.
pub fn sync_tagged_items(kind: TaggedType, desired: &Vec<TaggedItem>, rows: &Vec<Row>) -> (synced:
    Result<TaggedSync, Error>)
    ensures
        synced is Ok <==> all_decode(row_views(rows@)),
        synced is Ok ==> synced->Ok_0.synchronises(
            kind,
            stored_items(row_views(rows@)),
            item_views(desired@),
        ),
        synced is Err ==> synced->Err_0 == Error::DecodeFailure,
{
    let existing = match decode_tagged_items(rows) {
        Ok(items) => items,
        Err(e) => {
            return Err(e);
        },
    };
    let plan = reconcile(&existing, desired);
    let script = write_script(kind, &plan);
    Ok(TaggedSync { plan, script })
}

/// The script that writes the batches of `plan` and returns what they
/// commit.
pub fn write_script(kind: TaggedType, plan: &Reconciliation) -> (script: Script<Vec<TaggedItem>>)
    ensures
        script.pending() == statements_of(
            kind,
            item_views(plan.create@),
            item_views(plan.update@),
            item_views(plan.delete@),
        ),
        item_views(script.outcome()@) == plan.committed_views(),
{
    let mut statements: Vec<Query> = Vec::new();
    let ghost inserts = unless_empty(
        plan.create@.len(),
        insert_statement(kind, item_views(plan.create@)),
    );
    let ghost updates = unless_empty(
        plan.update@.len(),
        update_statement(kind, item_views(plan.update@)),
    );
    let ghost deletes = unless_empty(
        plan.delete@.len(),
        delete_statement(kind, item_views(plan.delete@)),
    );
    match insert_tagged_items_query(kind, &plan.create) {
        Some(query) => {
            statements.push(query);
        },
        None => {},
    }
    proof {
        assert(query_views(statements@) =~= inserts);
    }
    match update_tagged_items_query(kind, &plan.update) {
        Some(query) => {
            statements.push(query);
        },
        None => {},
    }
    proof {
        assert(query_views(statements@) =~= inserts + updates);
    }
    match delete_tagged_items_query(kind, &plan.delete) {
        Some(query) => {
            statements.push(query);
        },
        None => {},
    }
    proof {
        assert(query_views(statements@) =~= inserts + updates + deletes);
    }
    Script::new(statements, plan.committed())
}

/// Synchronising what is stored with itself is a no-op: where the wanted
/// associations are the stored ones, no row is inserted and none is deleted,
/// the only statement is the update that writes over each row the value it
/// has, and what is returned is the stored list.
pub proof fn synchronising_with_itself(
    synced: TaggedSync,
    kind: TaggedType,
    existing: Seq<TaggedItemView>,
)
    requires
        synced.synchronises(kind, existing, existing),
        distinct_keys(existing),
    ensures
        synced.plan.create@.len() == 0,
        synced.plan.delete@.len() == 0,
        item_views(synced.plan.update@) == existing,
        item_views(synced.script.outcome()@) == existing,
        synced.script.pending() == unless_empty(existing.len(), update_statement(kind, existing)),
{
    reconciling_with_itself_changes_nothing(existing);
    let none = Seq::<QueryView>::empty();
    assert(item_views(synced.plan.create@).len() == 0);
    assert(item_views(synced.plan.delete@).len() == 0);
    assert(item_views(synced.plan.update@).len() == synced.plan.update@.len());
    assert(item_views(synced.plan.create@) + existing == existing);
    assert(none + unless_empty(existing.len(), update_statement(kind, existing)) + none
        == unless_empty(existing.len(), update_statement(kind, existing)));
}

/// Synchronising associations that are all new inserts them and does nothing
/// else: where every wanted association is under an identity of its own and
/// none of them is stored, the only statement is the insertion, and the
/// associations created and returned are the wanted ones in the caller's
/// order, each under a new identifier.
pub proof fn synchronising_new_associations(
    synced: TaggedSync,
    kind: TaggedType,
    existing: Seq<TaggedItemView>,
    desired: Seq<TaggedItemView>,
)
    requires
        synced.synchronises(kind, existing, desired),
        distinct_keys(desired),
        keys_apart(desired, existing),
    ensures
        identified(item_views(synced.plan.create@), desired),
        synced.plan.update@.len() == 0,
        item_views(synced.script.outcome()@) == item_views(synced.plan.create@),
        existing.len() == 0 ==> synced.plan.delete@.len() == 0 && synced.script.pending()
            == unless_empty(
            desired.len(),
            insert_statement(kind, item_views(synced.plan.create@)),
        ),
{
    all_new_are_created_in_order(existing, desired);
    nothing_stored_only_creates(desired);
    let none = Seq::<QueryView>::empty();
    let made = item_views(synced.plan.create@);
    assert(item_views(synced.plan.update@).len() == 0);
    assert(made + item_views(synced.plan.update@) == made);
    if existing.len() == 0 {
        assert(existing == Seq::<TaggedItemView>::empty());
        assert(item_views(synced.plan.delete@).len() == 0);
        assert(made.len() == synced.plan.create@.len());
        assert(unless_empty(desired.len(), insert_statement(kind, made)) + none + none
            == unless_empty(desired.len(), insert_statement(kind, made)));
    }
}

/// Synchronising again after a run that stopped behind its insertion writes
/// what was outstanding and inserts nothing: where the rows that the first
/// run created are stored beside the rows it found, the second run has no
/// insertion, and its deletion is the one of the first run.
pub proof fn synchronising_again_after_partial_failure(
    first: TaggedSync,
    second: TaggedSync,
    kind: TaggedType,
    existing: Seq<TaggedItemView>,
    desired: Seq<TaggedItemView>,
)
    requires
        first.synchronises(kind, existing, desired),
        second.synchronises(kind, existing + item_views(first.plan.create@), desired),
    ensures
        second.plan.create@.len() == 0,
        item_views(second.plan.delete@) == item_views(first.plan.delete@),
        second.script.pending() == unless_empty(
            second.plan.update@.len(),
            update_statement(kind, item_views(second.plan.update@)),
        ) + unless_empty(
            first.plan.delete@.len(),
            delete_statement(kind, item_views(first.plan.delete@)),
        ),
{
    let created = item_views(first.plan.create@);
    rerun_after_partial_failure(existing, desired, created);
    let none = Seq::<QueryView>::empty();
    assert(item_views(second.plan.create@).len() == 0);
    assert(item_views(second.plan.delete@).len() == second.plan.delete@.len());
    assert(item_views(first.plan.delete@).len() == first.plan.delete@.len());
    assert(none + unless_empty(
        second.plan.update@.len(),
        update_statement(kind, item_views(second.plan.update@)),
    ) == unless_empty(
        second.plan.update@.len(),
        update_statement(kind, item_views(second.plan.update@)),
    ));
}

} // verus!
