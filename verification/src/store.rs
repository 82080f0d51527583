//! What a reconciliation does to the stored associations, and why writing it
//! again is safe: a model of the association table as the sequence of its
//! rows, on which the three statements of a reconciliation act by
//! identifier.

use crate::difference::{
    batches_name_each_identity_once, create_keys_are_wanted_not_stored, distinct_keys,
    keys_within, lemma_create_is_first_wanted, lemma_has_key_push,
    nothing_to_create_where_all_stored, nothing_to_delete_where_all_wanted,
    reconciling_with_itself_changes_nothing, rerun_after_partial_failure,
    update_keys_are_wanted_and_stored, updates_keep_stored_identifiers,
};
use crate::model::tag::TaggedItemView;
use crate::reconcile::{
    has_key, identified, lemma_has_key, lemma_position, position, to_create, to_delete,
    to_update, Key,
};
use vstd::prelude::*;

verus! {

/// Index of the first association in `items` under the identifier `id`, or
/// the length of `items` where there is none.
pub open spec fn id_position(items: Seq<TaggedItemView>, id: Seq<char>) -> int
    decreases items.len(),
{
    if items.len() == 0 {
        0
    } else {
        let before = id_position(items.drop_last(), id);
        if before < items.len() - 1 {
            before
        } else if items.last().id == id {
            items.len() - 1
        } else {
            items.len() as int
        }
    }
}

/// Whether some association in `items` is under the identifier `id`.
pub open spec fn has_id(items: Seq<TaggedItemView>, id: Seq<char>) -> bool {
    id_position(items, id) < items.len()
}

/// Whether no two associations in `items` are under the same identifier.
pub open spec fn distinct_ids(items: Seq<TaggedItemView>) -> bool {
    forall|i: int, j: int|
        0 <= i < j < items.len() ==> (#[trigger] items[i]).id != (#[trigger] items[j]).id
}

/// Whether none of `items` is under an identifier that is in `others`.
pub open spec fn ids_apart(items: Seq<TaggedItemView>, others: Seq<TaggedItemView>) -> bool {
    forall|i: int| 0 <= i < items.len() ==> !has_id(others, (#[trigger] items[i]).id)
}

/// Whether `rows` can be the rows of the association table: no identifier
/// and no identity occurs twice.
pub open spec fn well_formed(rows: Seq<TaggedItemView>) -> bool {
    distinct_ids(rows) && distinct_keys(rows)
}

/// A row after the update: under the value listed for its identifier, where
/// one is listed.
pub open spec fn rewritten(row: TaggedItemView, update: Seq<TaggedItemView>) -> TaggedItemView {
    if has_id(update, row.id) {
        TaggedItemView {
            id: row.id,
            ref_id: row.ref_id,
            tag_id: row.tag_id,
            value: update[id_position(update, row.id)].value,
        }
    } else {
        row
    }
}

/// The rows after the update and the deletion: a row whose identifier is
/// listed for deletion is gone, every other row is rewritten by the update.
pub open spec fn settled(
    rows: Seq<TaggedItemView>,
    update: Seq<TaggedItemView>,
    delete: Seq<TaggedItemView>,
) -> Seq<TaggedItemView>
    decreases rows.len(),
{
    if rows.len() == 0 {
        Seq::empty()
    } else {
        let before = settled(rows.drop_last(), update, delete);
        if has_id(delete, rows.last().id) {
            before
        } else {
            before.push(rewritten(rows.last(), update))
        }
    }
}

/// The rows of the table after the three statements of a reconciliation ran:
/// the insertion of `create`, then the update by `update`, then the deletion
/// of `delete`.
pub open spec fn written(
    rows: Seq<TaggedItemView>,
    create: Seq<TaggedItemView>,
    update: Seq<TaggedItemView>,
    delete: Seq<TaggedItemView>,
) -> Seq<TaggedItemView> {
    settled(rows + create, update, delete)
}

/// Whether `row` holds what is wanted: its identity is wanted, and its value
/// is that of the first wanted association of its identity.
pub open spec fn as_wanted(row: TaggedItemView, desired: Seq<TaggedItemView>) -> bool {
    has_key(desired, row.key()) && row.value == desired[position(desired, row.key())].value
}

/// What `id_position` finds: an index within bounds or the length, the
/// identifier at the index, and no such identifier before it.
pub proof fn lemma_id_position(items: Seq<TaggedItemView>, id: Seq<char>)
    ensures
        0 <= id_position(items, id) <= items.len(),
        has_id(items, id) ==> items[id_position(items, id)].id == id,
        forall|i: int| 0 <= i < id_position(items, id) ==> (#[trigger] items[i]).id != id,
    decreases items.len(),
{
    if items.len() > 0 {
        let before = items.drop_last();
        lemma_id_position(before, id);
        assert forall|i: int| 0 <= i < id_position(items, id) implies (#[trigger] items[i]).id
            != id by {
            if i < before.len() {
                assert(items[i] == before[i]);
            }
        }
    }
}

/// An identifier is found in a sequence exactly when some index holds it.
pub proof fn lemma_has_id(items: Seq<TaggedItemView>, id: Seq<char>)
    ensures
        has_id(items, id) <==> exists|i: int| 0 <= i < items.len() && (#[trigger] items[i]).id == id,
{
    lemma_id_position(items, id);
    if has_id(items, id) {
        assert(items[id_position(items, id)].id == id);
    }
}

/// Among distinct identifiers, the position of the identifier of a row is
/// the index of the row.
pub proof fn lemma_id_position_of_row(items: Seq<TaggedItemView>, at: int)
    requires
        distinct_ids(items),
        0 <= at < items.len(),
    ensures
        id_position(items, items[at].id) == at,
{
    lemma_id_position(items, items[at].id);
    let found = id_position(items, items[at].id);
    if found < at {
        assert(items[found].id != items[at].id);
    }
}

/// Among distinct identities, the position of the identity of a row is the
/// index of the row.
pub proof fn lemma_position_of_row(items: Seq<TaggedItemView>, at: int)
    requires
        distinct_keys(items),
        0 <= at < items.len(),
    ensures
        position(items, items[at].key()) == at,
{
    lemma_position(items, items[at].key());
    let found = position(items, items[at].key());
    if found < at {
        assert(items[found].key() != items[at].key());
    }
}

/// An identity is among the settled rows exactly when it is the identity of
/// a row that is not deleted.
pub proof fn lemma_settled_keys(
    rows: Seq<TaggedItemView>,
    update: Seq<TaggedItemView>,
    delete: Seq<TaggedItemView>,
    key: Key,
)
    ensures
        has_key(settled(rows, update, delete), key) <==> exists|i: int|
            0 <= i < rows.len() && (#[trigger] rows[i]).key() == key && !has_id(delete, rows[i].id),
    decreases rows.len(),
{
    if rows.len() > 0 {
        let before = rows.drop_last();
        let last = rows.last();
        lemma_settled_keys(before, update, delete, key);
        if !has_id(delete, last.id) {
            lemma_has_key_push(settled(before, update, delete), rewritten(last, update), key);
        }
        if has_key(settled(rows, update, delete), key) {
            if has_key(settled(before, update, delete), key) {
                let i = choose|i: int|
                    0 <= i < before.len() && (#[trigger] before[i]).key() == key && !has_id(
                        delete,
                        before[i].id,
                    );
                assert(rows[i] == before[i]);
            } else {
                assert(rows[rows.len() - 1].key() == key);
            }
        }
        if exists|i: int|
            0 <= i < rows.len() && (#[trigger] rows[i]).key() == key && !has_id(delete, rows[i].id) {
            let i = choose|i: int|
                0 <= i < rows.len() && (#[trigger] rows[i]).key() == key && !has_id(
                    delete,
                    rows[i].id,
                );
            if i < before.len() {
                assert(before[i] == rows[i]);
            }
        }
    }
}

/// An identifier among the settled rows is the identifier of a row.
pub proof fn lemma_settled_ids(
    rows: Seq<TaggedItemView>,
    update: Seq<TaggedItemView>,
    delete: Seq<TaggedItemView>,
    id: Seq<char>,
)
    ensures
        has_id(settled(rows, update, delete), id) ==> has_id(rows, id),
    decreases rows.len(),
{
    if rows.len() > 0 {
        let before = rows.drop_last();
        let last = rows.last();
        lemma_settled_ids(before, update, delete, id);
        if !has_id(delete, last.id) {
            assert(settled(before, update, delete).push(rewritten(last, update)).drop_last()
                == settled(before, update, delete));
        }
    }
}

/// Settling keeps identifiers and identities distinct.
pub proof fn lemma_settled_is_well_formed(
    rows: Seq<TaggedItemView>,
    update: Seq<TaggedItemView>,
    delete: Seq<TaggedItemView>,
)
    requires
        well_formed(rows),
    ensures
        well_formed(settled(rows, update, delete)),
    decreases rows.len(),
{
    if rows.len() > 0 {
        let before = rows.drop_last();
        let last = rows.last();
        assert forall|i: int, j: int| 0 <= i < j < before.len() implies (#[trigger] before[i]).id
            != (#[trigger] before[j]).id && before[i].key() != before[j].key() by {
            assert(before[i] == rows[i] && before[j] == rows[j]);
        }
        lemma_settled_is_well_formed(before, update, delete);
        if !has_id(delete, last.id) {
            let kept = settled(before, update, delete);
            let next = kept.push(rewritten(last, update));
            lemma_settled_ids(before, update, delete, last.id);
            lemma_settled_keys(before, update, delete, last.key());
            lemma_has_id(before, last.id);
            lemma_has_id(kept, last.id);
            lemma_has_key(kept, last.key());
            assert forall|i: int| 0 <= i < before.len() implies (#[trigger] before[i]).id
                != last.id && before[i].key() != last.key() by {
                assert(before[i] == rows[i]);
                assert(last == rows[rows.len() - 1]);
            }
            assert forall|i: int, j: int| 0 <= i < j < next.len() implies (#[trigger] next[i]).id
                != (#[trigger] next[j]).id && next[i].key() != next[j].key() by {
                if j < kept.len() {
                    assert(next[i] == kept[i] && next[j] == kept[j]);
                } else {
                    assert(next[i] == kept[i]);
                }
            }
        }
    }
}

/// Where every row that is not deleted is as wanted once it is rewritten,
/// every settled row is as wanted.
pub proof fn lemma_settled_rows_as_wanted(
    rows: Seq<TaggedItemView>,
    update: Seq<TaggedItemView>,
    delete: Seq<TaggedItemView>,
    desired: Seq<TaggedItemView>,
)
    requires
        forall|i: int|
            0 <= i < rows.len() && !has_id(delete, (#[trigger] rows[i]).id) ==> as_wanted(
                rewritten(rows[i], update),
                desired,
            ),
    ensures
        forall|j: int|
            0 <= j < settled(rows, update, delete).len() ==> as_wanted(
                #[trigger] settled(rows, update, delete)[j],
                desired,
            ),
    decreases rows.len(),
{
    if rows.len() > 0 {
        let before = rows.drop_last();
        let last = rows.last();
        assert forall|i: int|
            0 <= i < before.len() && !has_id(delete, (#[trigger] before[i]).id) implies as_wanted(
            rewritten(before[i], update),
            desired,
        ) by {
            assert(before[i] == rows[i]);
        }
        lemma_settled_rows_as_wanted(before, update, delete, desired);
        let kept = settled(before, update, delete);
        if !has_id(delete, last.id) {
            assert(last == rows[rows.len() - 1]);
            let next = kept.push(rewritten(last, update));
            assert forall|j: int| 0 <= j < next.len() implies as_wanted(
                #[trigger] next[j],
                desired,
            ) by {
                if j < kept.len() {
                    assert(next[j] == kept[j]);
                }
            }
        }
    }
}

/// The rows to delete are stored rows whose identity is not wanted, and
/// every stored row whose identity is not wanted is to delete.
pub proof fn lemma_delete_rows(existing: Seq<TaggedItemView>, desired: Seq<TaggedItemView>)
    ensures
        forall|d: int|
            0 <= d < to_delete(existing, desired).len() ==> exists|i: int|
                0 <= i < existing.len() && #[trigger] to_delete(existing, desired)[d]
                    == #[trigger] existing[i] && !has_key(desired, existing[i].key()),
        forall|i: int|
            0 <= i < existing.len() && !has_key(desired, (#[trigger] existing[i]).key())
                ==> exists|d: int|
                0 <= d < to_delete(existing, desired).len() && #[trigger] to_delete(
                    existing,
                    desired,
                )[d] == existing[i],
    decreases existing.len(),
{
    if existing.len() > 0 {
        let before = existing.drop_last();
        let last = existing.last();
        let gone = to_delete(existing, desired);
        let gone_before = to_delete(before, desired);
        lemma_delete_rows(before, desired);
        assert forall|d: int| 0 <= d < gone.len() implies exists|i: int|
            0 <= i < existing.len() && #[trigger] gone[d] == #[trigger] existing[i] && !has_key(
                desired,
                existing[i].key(),
            ) by {
            if d < gone_before.len() {
                assert(gone[d] == gone_before[d]);
                let i = choose|i: int|
                    0 <= i < before.len() && gone_before[d] == #[trigger] before[i] && !has_key(
                        desired,
                        before[i].key(),
                    );
                assert(existing[i] == before[i]);
            } else {
                assert(gone[d] == existing[existing.len() - 1]);
            }
        }
        assert forall|i: int|
            0 <= i < existing.len() && !has_key(
                desired,
                (#[trigger] existing[i]).key(),
            ) implies exists|d: int| 0 <= d < gone.len() && #[trigger] gone[d] == existing[i] by {
            if i < before.len() {
                assert(before[i] == existing[i]);
                let d = choose|d: int|
                    0 <= d < gone_before.len() && #[trigger] gone_before[d] == before[i];
                assert(gone[d] == gone_before[d]);
            } else {
                assert(gone[gone.len() - 1] == existing[i]);
            }
        }
    }
}

/// A stored row is listed for deletion exactly when its identity is not
/// wanted.
pub proof fn lemma_deleted_by_id(
    existing: Seq<TaggedItemView>,
    desired: Seq<TaggedItemView>,
    at: int,
)
    requires
        well_formed(existing),
        0 <= at < existing.len(),
    ensures
        has_id(to_delete(existing, desired), existing[at].id) <==> !has_key(
            desired,
            existing[at].key(),
        ),
{
    let gone = to_delete(existing, desired);
    lemma_delete_rows(existing, desired);
    lemma_has_id(gone, existing[at].id);
    if has_id(gone, existing[at].id) {
        let d = choose|d: int| 0 <= d < gone.len() && (#[trigger] gone[d]).id == existing[at].id;
        let i = choose|i: int|
            0 <= i < existing.len() && gone[d] == #[trigger] existing[i] && !has_key(
                desired,
                existing[i].key(),
            );
        if i < at {
            assert(existing[i].id != existing[at].id);
        } else if at < i {
            assert(existing[at].id != existing[i].id);
        }
    }
    if !has_key(desired, existing[at].key()) {
        let d = choose|d: int| 0 <= d < gone.len() && #[trigger] gone[d] == existing[at];
        assert(gone[d].id == existing[at].id);
    }
}

/// Every row to update is under the identifier of a stored row.
pub proof fn lemma_update_ids_are_stored(
    existing: Seq<TaggedItemView>,
    desired: Seq<TaggedItemView>,
    at: int,
)
    requires
        0 <= at < to_update(existing, desired).len(),
    ensures
        has_id(existing, to_update(existing, desired)[at].id),
        to_update(existing, desired)[at].id == existing[position(
            existing,
            to_update(existing, desired)[at].key(),
        )].id,
        has_key(existing, to_update(existing, desired)[at].key()),
{
    let row = to_update(existing, desired)[at];
    updates_keep_stored_identifiers(existing, desired, at);
    lemma_position(existing, row.key());
    lemma_has_id(existing, row.id);
    assert(existing[position(existing, row.key())].id == row.id);
}

/// A stored row whose identity is wanted is rewritten by the update to the
/// value of the first wanted association of its identity.
pub proof fn lemma_updated_by_id(
    existing: Seq<TaggedItemView>,
    desired: Seq<TaggedItemView>,
    at: int,
)
    requires
        well_formed(existing),
        0 <= at < existing.len(),
        has_key(desired, existing[at].key()),
    ensures
        as_wanted(rewritten(existing[at], to_update(existing, desired)), desired),
{
    let row = existing[at];
    let key = row.key();
    let update = to_update(existing, desired);
    lemma_has_key(existing, key);
    update_keys_are_wanted_and_stored(existing, desired, key);
    lemma_position(update, key);
    let u = position(update, key);
    updates_keep_stored_identifiers(existing, desired, u);
    lemma_position_of_row(existing, at);
    assert(update[u].id == row.id);
    lemma_has_id(update, row.id);
    lemma_id_position(update, row.id);
    let found = id_position(update, row.id);
    lemma_update_ids_are_stored(existing, desired, found);
    let other = position(existing, update[found].key());
    lemma_position(existing, update[found].key());
    if other < at {
        assert(existing[other].id != existing[at].id);
    } else if at < other {
        assert(existing[at].id != existing[other].id);
    }
    assert(update[found].key() == key);
    batches_name_each_identity_once(existing, desired);
    if found < u {
        assert(update[found].key() != update[u].key());
    } else if u < found {
        assert(update[u].key() != update[found].key());
    }
}

/// What a reconciliation leaves in the table is what is wanted. Where the
/// stored rows are well formed and the rows created are under new
/// identifiers, once the three statements ran the table holds exactly the
/// wanted identities, each once, each under the wanted value, and a stored
/// row that was wanted is still under its stored identifier.
pub proof fn table_holds_what_is_wanted(
    existing: Seq<TaggedItemView>,
    desired: Seq<TaggedItemView>,
    created: Seq<TaggedItemView>,
)
    requires
        well_formed(existing),
        identified(created, to_create(existing, desired)),
        distinct_ids(created),
        ids_apart(created, existing),
    ensures
        well_formed(
            written(
                existing,
                created,
                to_update(existing, desired),
                to_delete(existing, desired),
            ),
        ),
        forall|key: Key|
            has_key(
                written(
                    existing,
                    created,
                    to_update(existing, desired),
                    to_delete(existing, desired),
                ),
                key,
            ) <==> has_key(desired, key),
        forall|j: int|
            0 <= j < written(
                existing,
                created,
                to_update(existing, desired),
                to_delete(existing, desired),
            ).len() ==> as_wanted(
                #[trigger] written(
                    existing,
                    created,
                    to_update(existing, desired),
                    to_delete(existing, desired),
                )[j],
                desired,
            ),
        forall|i: int|
            0 <= i < existing.len() && has_key(desired, (#[trigger] existing[i]).key())
                ==> has_id(
                written(
                    existing,
                    created,
                    to_update(existing, desired),
                    to_delete(existing, desired),
                ),
                existing[i].id,
            ),
{
    let planned = to_create(existing, desired);
    let update = to_update(existing, desired);
    let delete = to_delete(existing, desired);
    let rows = existing + created;
    let result = settled(rows, update, delete);
    lemma_rows_with_created_are_well_formed(existing, desired, created);
    lemma_settled_is_well_formed(rows, update, delete);
    assert forall|i: int|
        0 <= i < rows.len() && !has_id(delete, (#[trigger] rows[i]).id) implies as_wanted(
        rewritten(rows[i], update),
        desired,
    ) by {
        if i < existing.len() {
            assert(rows[i] == existing[i]);
            lemma_deleted_by_id(existing, desired, i);
            lemma_updated_by_id(existing, desired, i);
        } else {
            let p = i - existing.len();
            assert(rows[i] == created[p]);
            lemma_created_is_untouched(existing, desired, created, p);
            lemma_create_is_first_wanted(existing, desired, p);
            assert(created[p].key() == planned[p].key());
        }
    }
    lemma_settled_rows_as_wanted(rows, update, delete, desired);
    assert forall|key: Key| has_key(result, key) <==> has_key(desired, key) by {
        lemma_settled_keys(rows, update, delete, key);
        if has_key(result, key) {
            let i = choose|i: int|
                0 <= i < rows.len() && (#[trigger] rows[i]).key() == key && !has_id(
                    delete,
                    rows[i].id,
                );
            if i < existing.len() {
                assert(rows[i] == existing[i]);
                lemma_deleted_by_id(existing, desired, i);
            } else {
                let p = i - existing.len();
                assert(rows[i] == created[p]);
                assert(created[p].key() == planned[p].key());
                lemma_has_key(planned, key);
                create_keys_are_wanted_not_stored(existing, desired, key);
            }
        }
        if has_key(desired, key) {
            if has_key(existing, key) {
                lemma_position(existing, key);
                let i = position(existing, key);
                assert(rows[i] == existing[i]);
                lemma_deleted_by_id(existing, desired, i);
            } else {
                create_keys_are_wanted_not_stored(existing, desired, key);
                lemma_position(planned, key);
                let p = position(planned, key);
                assert(created[p].key() == key);
                assert(rows[existing.len() + p] == created[p]);
                lemma_created_is_untouched(existing, desired, created, p);
            }
        }
    }
    assert forall|i: int|
        0 <= i < existing.len() && has_key(desired, (#[trigger] existing[i]).key()) implies has_id(
        result,
        existing[i].id,
    ) by {
        assert(rows[i] == existing[i]);
        lemma_deleted_by_id(existing, desired, i);
        lemma_settled_holds_kept_ids(rows, update, delete, i);
    }
}

/// The identifier of a row that is not deleted is among the settled rows.
pub proof fn lemma_settled_holds_kept_ids(
    rows: Seq<TaggedItemView>,
    update: Seq<TaggedItemView>,
    delete: Seq<TaggedItemView>,
    at: int,
)
    requires
        0 <= at < rows.len(),
        !has_id(delete, rows[at].id),
    ensures
        has_id(settled(rows, update, delete), rows[at].id),
    decreases rows.len(),
{
    let before = rows.drop_last();
    let last = rows.last();
    let kept = settled(before, update, delete);
    if at < before.len() {
        assert(before[at] == rows[at]);
        lemma_settled_holds_kept_ids(before, update, delete, at);
        if !has_id(delete, last.id) {
            assert(kept.push(rewritten(last, update)).drop_last() == kept);
        }
    } else {
        assert(kept.push(rewritten(last, update)).drop_last() == kept);
        assert(kept.push(rewritten(last, update)).last().id == rows[at].id);
    }
}

/// The stored rows together with rows created under new identifiers are
/// well formed.
pub proof fn lemma_rows_with_created_are_well_formed(
    existing: Seq<TaggedItemView>,
    desired: Seq<TaggedItemView>,
    created: Seq<TaggedItemView>,
)
    requires
        well_formed(existing),
        identified(created, to_create(existing, desired)),
        distinct_ids(created),
        ids_apart(created, existing),
    ensures
        well_formed(existing + created),
{
    let planned = to_create(existing, desired);
    let rows = existing + created;
    batches_name_each_identity_once(existing, desired);
    assert forall|i: int, j: int| 0 <= i < j < rows.len() implies (#[trigger] rows[i]).id
        != (#[trigger] rows[j]).id && rows[i].key() != rows[j].key() by {
        if j < existing.len() {
            assert(rows[i] == existing[i] && rows[j] == existing[j]);
        } else if i >= existing.len() {
            let p = i - existing.len();
            let q = j - existing.len();
            assert(rows[i] == created[p] && rows[j] == created[q]);
            assert(created[p].key() == planned[p].key());
            assert(created[q].key() == planned[q].key());
            assert(planned[p].key() != planned[q].key());
        } else {
            let q = j - existing.len();
            assert(rows[i] == existing[i] && rows[j] == created[q]);
            lemma_has_id(existing, created[q].id);
            assert(created[q].key() == planned[q].key());
            lemma_has_key(planned, planned[q].key());
            create_keys_are_wanted_not_stored(existing, desired, planned[q].key());
            lemma_has_key(existing, planned[q].key());
        }
    }
}

/// A row created under a new identifier is neither deleted nor rewritten.
pub proof fn lemma_created_is_untouched(
    existing: Seq<TaggedItemView>,
    desired: Seq<TaggedItemView>,
    created: Seq<TaggedItemView>,
    at: int,
)
    requires
        ids_apart(created, existing),
        0 <= at < created.len(),
    ensures
        !has_id(to_delete(existing, desired), created[at].id),
        !has_id(to_update(existing, desired), created[at].id),
        rewritten(created[at], to_update(existing, desired)) == created[at],
{
    let id = created[at].id;
    let update = to_update(existing, desired);
    let delete = to_delete(existing, desired);
    lemma_has_id(existing, id);
    lemma_has_id(update, id);
    lemma_has_id(delete, id);
    lemma_delete_rows(existing, desired);
    if has_id(delete, id) {
        let d = choose|d: int| 0 <= d < delete.len() && (#[trigger] delete[d]).id == id;
        let i = choose|i: int|
            0 <= i < existing.len() && delete[d] == #[trigger] existing[i] && !has_key(
                desired,
                existing[i].key(),
            );
        assert(existing[i].id == id);
    }
    if has_id(update, id) {
        let u = choose|u: int| 0 <= u < update.len() && (#[trigger] update[u]).id == id;
        lemma_update_ids_are_stored(existing, desired, u);
    }
}

/// Rows that the update leaves as they are, with nothing to delete, settle
/// to themselves.
pub proof fn lemma_settled_unchanged(rows: Seq<TaggedItemView>, update: Seq<TaggedItemView>)
    requires
        forall|i: int| 0 <= i < rows.len() ==> rewritten(#[trigger] rows[i], update) == rows[i],
    ensures
        settled(rows, update, Seq::<TaggedItemView>::empty()) == rows,
    decreases rows.len(),
{
    if rows.len() > 0 {
        let before = rows.drop_last();
        assert forall|i: int| 0 <= i < before.len() implies rewritten(
            #[trigger] before[i],
            update,
        ) == before[i] by {
            assert(before[i] == rows[i]);
        }
        lemma_settled_unchanged(before, update);
        assert(rewritten(rows[rows.len() - 1], update) == rows.last());
        assert(before.push(rows.last()) == rows);
    } else {
        assert(rows == Seq::<TaggedItemView>::empty());
    }
}

/// Reconciling the table with what it holds writes nothing new: where the
/// wanted associations are the stored ones, nothing is inserted, nothing is
/// deleted, and the update writes over each row the value it has, so the
/// table after the statements is the table before them.
pub proof fn reconciling_with_itself_leaves_the_table(existing: Seq<TaggedItemView>)
    requires
        well_formed(existing),
    ensures
        written(
            existing,
            to_create(existing, existing),
            to_update(existing, existing),
            to_delete(existing, existing),
        ) == existing,
{
    reconciling_with_itself_changes_nothing(existing);
    assert(existing + Seq::<TaggedItemView>::empty() == existing);
    assert forall|i: int| 0 <= i < existing.len() implies rewritten(
        #[trigger] existing[i],
        existing,
    ) == existing[i] by {
        lemma_id_position_of_row(existing, i);
    }
    lemma_settled_unchanged(existing, existing);
}

/// Reconciling again is safe. Once the table holds what is wanted, a second
/// reconciliation with the same wanted associations inserts nothing and
/// deletes nothing, and its update writes over each row the value it has:
/// the table stays as it is.
pub proof fn reconciling_again_leaves_the_table(
    rows: Seq<TaggedItemView>,
    desired: Seq<TaggedItemView>,
)
    requires
        well_formed(rows),
        forall|key: Key| has_key(rows, key) <==> has_key(desired, key),
        forall|j: int| 0 <= j < rows.len() ==> as_wanted(#[trigger] rows[j], desired),
    ensures
        to_create(rows, desired) == Seq::<TaggedItemView>::empty(),
        to_delete(rows, desired) == Seq::<TaggedItemView>::empty(),
        written(rows, to_create(rows, desired), to_update(rows, desired), to_delete(rows, desired))
            == rows,
{
    let update = to_update(rows, desired);
    assert(keys_within(desired, rows)) by {
        assert forall|i: int| 0 <= i < desired.len() implies has_key(
            rows,
            (#[trigger] desired[i]).key(),
        ) by {
            lemma_has_key(desired, desired[i].key());
        }
    }
    assert(keys_within(rows, desired));
    nothing_to_create_where_all_stored(rows, desired);
    nothing_to_delete_where_all_wanted(rows, desired);
    assert(rows + Seq::<TaggedItemView>::empty() == rows);
    assert forall|i: int| 0 <= i < rows.len() implies rewritten(#[trigger] rows[i], update)
        == rows[i] by {
        if has_id(update, rows[i].id) {
            lemma_id_position(update, rows[i].id);
            let found = id_position(update, rows[i].id);
            updates_keep_stored_identifiers(rows, desired, found);
            lemma_update_ids_are_stored(rows, desired, found);
            let other = position(rows, update[found].key());
            lemma_position(rows, update[found].key());
            if other < i {
                assert(rows[other].id != rows[i].id);
            } else if i < other {
                assert(rows[i].id != rows[other].id);
            }
        }
    }
    lemma_settled_unchanged(rows, update);
}

/// Whether `rows` hold exactly what is wanted: the wanted identities, each
/// once and under the wanted value.
pub open spec fn holds_what_is_wanted(rows: Seq<TaggedItemView>, desired: Seq<TaggedItemView>) -> bool {
    &&& well_formed(rows)
    &&& forall|key: Key| has_key(rows, key) <==> has_key(desired, key)
    &&& forall|j: int| 0 <= j < rows.len() ==> as_wanted(#[trigger] rows[j], desired)
}

/// A reconciliation converges in one run: the table it leaves holds what is
/// wanted, and reconciling that table again with the same wanted
/// associations leaves it as it is.
pub proof fn reconciliation_converges(
    existing: Seq<TaggedItemView>,
    desired: Seq<TaggedItemView>,
    created: Seq<TaggedItemView>,
)
    requires
        well_formed(existing),
        identified(created, to_create(existing, desired)),
        distinct_ids(created),
        ids_apart(created, existing),
    ensures
        ({
            let rows = written(
                existing,
                created,
                to_update(existing, desired),
                to_delete(existing, desired),
            );
            &&& holds_what_is_wanted(rows, desired)
            &&& written(
                rows,
                to_create(rows, desired),
                to_update(rows, desired),
                to_delete(rows, desired),
            ) == rows
        }),
{
    table_holds_what_is_wanted(existing, desired, created);
    let rows = written(
        existing,
        created,
        to_update(existing, desired),
        to_delete(existing, desired),
    );
    reconciling_again_leaves_the_table(rows, desired);
}

/// A reconciliation that stopped half way is made good by running it again.
/// Where the first run inserted its rows and then failed, so that nothing
/// was updated or deleted, the table that a second run with the same wanted
/// associations leaves holds what is wanted.
pub proof fn rerun_after_partial_failure_converges(
    existing: Seq<TaggedItemView>,
    desired: Seq<TaggedItemView>,
    created: Seq<TaggedItemView>,
)
    requires
        well_formed(existing),
        identified(created, to_create(existing, desired)),
        distinct_ids(created),
        ids_apart(created, existing),
    ensures
        ({
            let partial = existing + created;
            holds_what_is_wanted(
                written(
                    partial,
                    to_create(partial, desired),
                    to_update(partial, desired),
                    to_delete(partial, desired),
                ),
                desired,
            )
        }),
{
    let partial = existing + created;
    lemma_rows_with_created_are_well_formed(existing, desired, created);
    rerun_after_partial_failure(existing, desired, created);
    let nothing = Seq::<TaggedItemView>::empty();
    assert(to_create(partial, desired) == nothing);
    assert(identified(nothing, to_create(partial, desired)));
    assert(distinct_ids(nothing));
    assert(ids_apart(nothing, partial));
    table_holds_what_is_wanted(partial, desired, nothing);
}

} // verus!
