//! What holds of every reconciliation: how the three batches partition the
//! identities involved, in what order associations are created, and why
//! running a reconciliation again is safe.

use crate::model::tag::TaggedItemView;
use crate::reconcile::{
    has_key, identified, lemma_has_key, lemma_position, lemma_position_is, position, revalued,
    to_create, to_delete, to_update, Key,
};
use vstd::prelude::*;

verus! {

/// Whether no two associations in `items` have the same identity.
pub open spec fn distinct_keys(items: Seq<TaggedItemView>) -> bool {
    forall|i: int, j: int|
        0 <= i < j < items.len() ==> (#[trigger] items[i]).key() != (#[trigger] items[j]).key()
}

/// Whether every identity in `items` is also in `others`.
pub open spec fn keys_within(items: Seq<TaggedItemView>, others: Seq<TaggedItemView>) -> bool {
    forall|i: int| 0 <= i < items.len() ==> has_key(others, (#[trigger] items[i]).key())
}

/// Whether no identity in `items` is in `others`.
pub open spec fn keys_apart(items: Seq<TaggedItemView>, others: Seq<TaggedItemView>) -> bool {
    forall|i: int| 0 <= i < items.len() ==> !has_key(others, (#[trigger] items[i]).key())
}

/// An identity is in a sequence with one more association exactly when it is
/// in the sequence before or is the identity of the association added.
pub proof fn lemma_has_key_push(items: Seq<TaggedItemView>, last: TaggedItemView, key: Key)
    ensures
        has_key(items.push(last), key) <==> has_key(items, key) || last.key() == key,
{
    assert(items.push(last).drop_last() == items);
}

/// An identity is in the concatenation of two sequences exactly when it is in
/// one of them.
pub proof fn lemma_has_key_concat(a: Seq<TaggedItemView>, b: Seq<TaggedItemView>, key: Key)
    ensures
        has_key(a + b, key) <==> has_key(a, key) || has_key(b, key),
    decreases b.len(),
{
    if b.len() == 0 {
        assert(a + b == a);
    } else {
        lemma_has_key_concat(a, b.drop_last(), key);
        assert(a + b == (a + b.drop_last()).push(b.last()));
        lemma_has_key_push(a + b.drop_last(), b.last(), key);
        assert(b == b.drop_last().push(b.last()));
        lemma_has_key_push(b.drop_last(), b.last(), key);
    }
}

/// The batch to create holds exactly the identities that are wanted and not
/// stored.
pub proof fn create_keys_are_wanted_not_stored(
    existing: Seq<TaggedItemView>,
    desired: Seq<TaggedItemView>,
    key: Key,
)
    ensures
        has_key(to_create(existing, desired), key) <==> has_key(desired, key) && !has_key(
            existing,
            key,
        ),
    decreases desired.len(),
{
    if desired.len() > 0 {
        let before = desired.drop_last();
        let wanted = desired.last();
        create_keys_are_wanted_not_stored(existing, before, key);
        if !(has_key(before, wanted.key()) || has_key(existing, wanted.key())) {
            lemma_has_key_push(to_create(existing, before), wanted, key);
        }
    }
}

/// The batch to update holds exactly the identities that are wanted and
/// stored.
pub proof fn update_keys_are_wanted_and_stored(
    existing: Seq<TaggedItemView>,
    desired: Seq<TaggedItemView>,
    key: Key,
)
    ensures
        has_key(to_update(existing, desired), key) <==> has_key(desired, key) && has_key(
            existing,
            key,
        ),
    decreases desired.len(),
{
    if desired.len() > 0 {
        let before = desired.drop_last();
        let wanted = desired.last();
        update_keys_are_wanted_and_stored(existing, before, key);
        if !(has_key(before, wanted.key()) || !has_key(existing, wanted.key())) {
            lemma_has_key_push(to_update(existing, before), revalued(existing, wanted), key);
        }
    }
}

/// The batch to delete holds exactly the identities that are stored and not
/// wanted.
pub proof fn delete_keys_are_stored_not_wanted(
    existing: Seq<TaggedItemView>,
    desired: Seq<TaggedItemView>,
    key: Key,
)
    ensures
        has_key(to_delete(existing, desired), key) <==> has_key(existing, key) && !has_key(
            desired,
            key,
        ),
    decreases existing.len(),
{
    if existing.len() > 0 {
        let before = existing.drop_last();
        let kept = existing.last();
        delete_keys_are_stored_not_wanted(before, desired, key);
        if !has_key(desired, kept.key()) {
            lemma_has_key_push(to_delete(before, desired), kept, key);
        }
    }
}

/// No identity is created twice, and none is updated twice.
pub proof fn batches_name_each_identity_once(
    existing: Seq<TaggedItemView>,
    desired: Seq<TaggedItemView>,
)
    ensures
        distinct_keys(to_create(existing, desired)),
        distinct_keys(to_update(existing, desired)),
    decreases desired.len(),
{
    if desired.len() > 0 {
        let before = desired.drop_last();
        let wanted = desired.last();
        batches_name_each_identity_once(existing, before);
        if !has_key(before, wanted.key()) {
            let made = to_create(existing, before);
            let kept = to_update(existing, before);
            create_keys_are_wanted_not_stored(existing, before, wanted.key());
            update_keys_are_wanted_and_stored(existing, before, wanted.key());
            lemma_has_key(made, wanted.key());
            lemma_has_key(kept, wanted.key());
            if has_key(existing, wanted.key()) {
                let next = kept.push(revalued(existing, wanted));
                assert forall|i: int, j: int| 0 <= i < j < next.len() implies (#[trigger] next[i]).key()
                    != (#[trigger] next[j]).key() by {
                    if j < kept.len() {
                        assert(next[i] == kept[i] && next[j] == kept[j]);
                    } else {
                        assert(next[i] == kept[i]);
                    }
                }
            } else {
                let next = made.push(wanted);
                assert forall|i: int, j: int| 0 <= i < j < next.len() implies (#[trigger] next[i]).key()
                    != (#[trigger] next[j]).key() by {
                    if j < made.len() {
                        assert(next[i] == made[i] && next[j] == made[j]);
                    } else {
                        assert(next[i] == made[i]);
                    }
                }
            }
        }
    }
}

/// Associations are created in the caller's order: of two associations in the
/// batch to create, the earlier one is also wanted earlier, and each is the
/// first wanted association of its identity.
pub proof fn created_in_caller_order(
    existing: Seq<TaggedItemView>,
    desired: Seq<TaggedItemView>,
    i: int,
    j: int,
)
    requires
        0 <= i < j < to_create(existing, desired).len(),
    ensures
        position(desired, to_create(existing, desired)[i].key()) < position(
            desired,
            to_create(existing, desired)[j].key(),
        ) < desired.len(),
        to_create(existing, desired)[i] == desired[position(
            desired,
            to_create(existing, desired)[i].key(),
        )],
        to_create(existing, desired)[j] == desired[position(
            desired,
            to_create(existing, desired)[j].key(),
        )],
    decreases desired.len(),
{
    lemma_create_is_first_wanted(existing, desired, i);
    lemma_create_is_first_wanted(existing, desired, j);
    let before = desired.drop_last();
    let wanted = desired.last();
    let made = to_create(existing, before);
    if has_key(before, wanted.key()) || has_key(existing, wanted.key()) {
        created_in_caller_order(existing, before, i, j);
        lemma_position_kept(before, wanted, made[i].key());
        lemma_position_kept(before, wanted, made[j].key());
    } else if j < made.len() {
        created_in_caller_order(existing, before, i, j);
        assert(to_create(existing, desired)[i] == made[i]);
        assert(to_create(existing, desired)[j] == made[j]);
        lemma_position_kept(before, wanted, made[i].key());
        lemma_position_kept(before, wanted, made[j].key());
    } else {
        assert(to_create(existing, desired)[i] == made[i]);
        assert(to_create(existing, desired)[j] == wanted);
        lemma_create_is_first_wanted(existing, before, i);
        lemma_position_kept(before, wanted, made[i].key());
        lemma_position(desired, wanted.key());
    }
}

/// The position of an identity that is found in a sequence stays what it is
/// when an association is added behind.
proof fn lemma_position_kept(items: Seq<TaggedItemView>, last: TaggedItemView, key: Key)
    requires
        has_key(items, key),
    ensures
        position(items.push(last), key) == position(items, key),
{
    assert(items.push(last).drop_last() == items);
}

/// Each association to create is the first wanted association of its
/// identity.
pub proof fn lemma_create_is_first_wanted(
    existing: Seq<TaggedItemView>,
    desired: Seq<TaggedItemView>,
    i: int,
)
    requires
        0 <= i < to_create(existing, desired).len(),
    ensures
        has_key(desired, to_create(existing, desired)[i].key()),
        to_create(existing, desired)[i] == desired[position(
            desired,
            to_create(existing, desired)[i].key(),
        )],
    decreases desired.len(),
{
    let before = desired.drop_last();
    let wanted = desired.last();
    let made = to_create(existing, before);
    if has_key(before, wanted.key()) || has_key(existing, wanted.key()) || i < made.len() {
        lemma_create_is_first_wanted(existing, before, i);
        lemma_position_kept(before, wanted, made[i].key());
        lemma_position(before, made[i].key());
    } else {
        lemma_position(desired, wanted.key());
    }
}

/// Where every wanted identity is stored, nothing is created.
pub proof fn nothing_to_create_where_all_stored(
    existing: Seq<TaggedItemView>,
    desired: Seq<TaggedItemView>,
)
    requires
        keys_within(desired, existing),
    ensures
        to_create(existing, desired) == Seq::<TaggedItemView>::empty(),
    decreases desired.len(),
{
    if desired.len() > 0 {
        let before = desired.drop_last();
        assert forall|i: int| 0 <= i < before.len() implies has_key(
            existing,
            (#[trigger] before[i]).key(),
        ) by {
            assert(before[i] == desired[i]);
        }
        nothing_to_create_where_all_stored(existing, before);
        assert(has_key(existing, desired[desired.len() - 1].key()));
    }
}

/// Where no wanted identity is stored, nothing is updated.
pub proof fn nothing_to_update_where_none_stored(
    existing: Seq<TaggedItemView>,
    desired: Seq<TaggedItemView>,
)
    requires
        keys_apart(desired, existing),
    ensures
        to_update(existing, desired) == Seq::<TaggedItemView>::empty(),
    decreases desired.len(),
{
    if desired.len() > 0 {
        let before = desired.drop_last();
        assert forall|i: int| 0 <= i < before.len() implies !has_key(
            existing,
            (#[trigger] before[i]).key(),
        ) by {
            assert(before[i] == desired[i]);
        }
        nothing_to_update_where_none_stored(existing, before);
        assert(!has_key(existing, desired[desired.len() - 1].key()));
    }
}

/// Where every stored identity is wanted, nothing is deleted.
pub proof fn nothing_to_delete_where_all_wanted(
    existing: Seq<TaggedItemView>,
    desired: Seq<TaggedItemView>,
)
    requires
        keys_within(existing, desired),
    ensures
        to_delete(existing, desired) == Seq::<TaggedItemView>::empty(),
    decreases existing.len(),
{
    if existing.len() > 0 {
        let before = existing.drop_last();
        assert forall|i: int| 0 <= i < before.len() implies has_key(
            desired,
            (#[trigger] before[i]).key(),
        ) by {
            assert(before[i] == existing[i]);
        }
        nothing_to_delete_where_all_wanted(before, desired);
        assert(has_key(desired, existing[existing.len() - 1].key()));
    }
}

/// Every association is within the identities of its own sequence.
pub proof fn lemma_keys_within_self(items: Seq<TaggedItemView>)
    ensures
        keys_within(items, items),
{
    assert forall|i: int| 0 <= i < items.len() implies has_key(
        items,
        (#[trigger] items[i]).key(),
    ) by {
        lemma_has_key(items, items[i].key());
    }
}

/// Reconciling what is stored with itself changes nothing: where the wanted
/// associations are the stored ones, identity by identity and value by value,
/// nothing is created, nothing is deleted, and what is committed is the
/// stored list itself. Every stored association is in the batch to update,
/// under its own identifier and with its own value, so that batch is empty
/// only where nothing is stored.
pub proof fn reconciling_with_itself_changes_nothing(existing: Seq<TaggedItemView>)
    requires
        distinct_keys(existing),
    ensures
        to_create(existing, existing) == Seq::<TaggedItemView>::empty(),
        to_delete(existing, existing) == Seq::<TaggedItemView>::empty(),
        to_update(existing, existing) == existing,
        to_create(existing, existing) + to_update(existing, existing) == existing,
{
    lemma_keys_within_self(existing);
    nothing_to_create_where_all_stored(existing, existing);
    nothing_to_delete_where_all_wanted(existing, existing);
    lemma_update_of_own_prefix(existing, existing.len() as int);
    assert(existing.take(existing.len() as int) == existing);
    assert(Seq::<TaggedItemView>::empty() + existing == existing);
}

/// The update of a sequence of distinct identities by its own first `n`
/// associations is those associations.
proof fn lemma_update_of_own_prefix(existing: Seq<TaggedItemView>, n: int)
    requires
        distinct_keys(existing),
        0 <= n <= existing.len(),
    ensures
        to_update(existing, existing.take(n)) == existing.take(n),
    decreases n,
{
    if n > 0 {
        let head = existing.take(n);
        let before = head.drop_last();
        let wanted = head.last();
        assert(before == existing.take(n - 1));
        assert(wanted == existing[n - 1]);
        lemma_update_of_own_prefix(existing, n - 1);
        assert forall|i: int| 0 <= i < n - 1 implies (#[trigger] existing[i]).key()
            != wanted.key() by {}
        lemma_position_is(existing, wanted.key(), n - 1);
        assert forall|i: int| 0 <= i < before.len() implies (#[trigger] before[i]).key()
            != wanted.key() by {
            assert(before[i] == existing[i]);
        }
        lemma_position_is(before, wanted.key(), n - 1);
        assert(revalued(existing, wanted) == wanted);
        assert(before.push(wanted) == head);
    }
}

/// Where every wanted association is new, each under an identity of its own,
/// the batch to create is the wanted list in the caller's order, and nothing
/// is updated.
pub proof fn all_new_are_created_in_order(
    existing: Seq<TaggedItemView>,
    desired: Seq<TaggedItemView>,
)
    requires
        distinct_keys(desired),
        keys_apart(desired, existing),
    ensures
        to_create(existing, desired) == desired,
        to_update(existing, desired) == Seq::<TaggedItemView>::empty(),
    decreases desired.len(),
{
    nothing_to_update_where_none_stored(existing, desired);
    if desired.len() > 0 {
        let before = desired.drop_last();
        let wanted = desired.last();
        assert forall|i: int| 0 <= i < before.len() implies !has_key(
            existing,
            (#[trigger] before[i]).key(),
        ) by {
            assert(before[i] == desired[i]);
        }
        assert forall|i: int, j: int| 0 <= i < j < before.len() implies (#[trigger] before[i]).key()
            != (#[trigger] before[j]).key() by {
            assert(before[i] == desired[i] && before[j] == desired[j]);
        }
        all_new_are_created_in_order(existing, before);
        assert forall|i: int| 0 <= i < before.len() implies (#[trigger] before[i]).key()
            != wanted.key() by {
            assert(before[i] == desired[i]);
            assert(wanted == desired[desired.len() - 1]);
        }
        lemma_position_is(before, wanted.key(), before.len() as int);
        assert(!has_key(existing, desired[desired.len() - 1].key()));
        assert(before.push(wanted) == desired);
    } else {
        assert(desired == Seq::<TaggedItemView>::empty());
    }
}

/// With nothing stored, nothing is updated and nothing is deleted.
pub proof fn nothing_stored_only_creates(desired: Seq<TaggedItemView>)
    ensures
        to_update(Seq::<TaggedItemView>::empty(), desired) == Seq::<TaggedItemView>::empty(),
        to_delete(Seq::<TaggedItemView>::empty(), desired) == Seq::<TaggedItemView>::empty(),
{
    assert forall|i: int| 0 <= i < desired.len() implies !has_key(
        Seq::<TaggedItemView>::empty(),
        (#[trigger] desired[i]).key(),
    ) by {}
    nothing_to_update_where_none_stored(Seq::<TaggedItemView>::empty(), desired);
}

/// The batch to delete of a concatenation is the concatenation of the
/// batches of its parts.
pub proof fn lemma_delete_concat(
    a: Seq<TaggedItemView>,
    b: Seq<TaggedItemView>,
    desired: Seq<TaggedItemView>,
)
    ensures
        to_delete(a + b, desired) == to_delete(a, desired) + to_delete(b, desired),
    decreases b.len(),
{
    if b.len() == 0 {
        assert(a + b == a);
        assert(to_delete(a, desired) + Seq::<TaggedItemView>::empty() == to_delete(a, desired));
    } else {
        let before = b.drop_last();
        lemma_delete_concat(a, before, desired);
        assert((a + b).drop_last() == a + before);
        assert((a + b).last() == b.last());
        if !has_key(desired, b.last().key()) {
            assert((to_delete(a, desired) + to_delete(before, desired)).push(b.last())
                == to_delete(a, desired) + to_delete(before, desired).push(b.last()));
        }
    }
}

/// Running a reconciliation again after it stopped half way converges. Where
/// the first run inserted its batch to create and then failed, so that
/// nothing was deleted, a second run with the same wanted associations
/// creates nothing and its batch to delete is the one that was outstanding.
/// Its batch to update holds the wanted associations once more, under the
/// identifiers now stored.
pub proof fn rerun_after_partial_failure(
    existing: Seq<TaggedItemView>,
    desired: Seq<TaggedItemView>,
    created: Seq<TaggedItemView>,
)
    requires
        identified(created, to_create(existing, desired)),
    ensures
        to_create(existing + created, desired) == Seq::<TaggedItemView>::empty(),
        to_delete(existing + created, desired) == to_delete(existing, desired),
{
    let planned = to_create(existing, desired);
    let stored_now = existing + created;
    assert forall|i: int| 0 <= i < desired.len() implies has_key(
        stored_now,
        (#[trigger] desired[i]).key(),
    ) by {
        let key = desired[i].key();
        lemma_has_key(desired, key);
        lemma_has_key_concat(existing, created, key);
        if !has_key(existing, key) {
            create_keys_are_wanted_not_stored(existing, desired, key);
            lemma_has_key(planned, key);
            let at = choose|at: int| 0 <= at < planned.len() && (#[trigger] planned[at]).key() == key;
            assert(created[at].key() == key);
            lemma_has_key(created, key);
        }
    }
    nothing_to_create_where_all_stored(stored_now, desired);
    assert forall|i: int| 0 <= i < created.len() implies has_key(
        desired,
        (#[trigger] created[i]).key(),
    ) by {
        let key = created[i].key();
        assert(planned[i].key() == key);
        lemma_has_key(planned, key);
        create_keys_are_wanted_not_stored(existing, desired, key);
    }
    nothing_to_delete_where_all_wanted(created, desired);
    lemma_delete_concat(existing, created, desired);
    assert(to_delete(existing, desired) + Seq::<TaggedItemView>::empty() == to_delete(
        existing,
        desired,
    ));
}

/// Each association to update carries the identifier under which its identity
/// is stored, and the value of the first wanted association of that identity.
pub proof fn updates_keep_stored_identifiers(
    existing: Seq<TaggedItemView>,
    desired: Seq<TaggedItemView>,
    i: int,
)
    requires
        0 <= i < to_update(existing, desired).len(),
    ensures
        has_key(existing, to_update(existing, desired)[i].key()),
        has_key(desired, to_update(existing, desired)[i].key()),
        to_update(existing, desired)[i] == revalued(
            existing,
            desired[position(desired, to_update(existing, desired)[i].key())],
        ),
    decreases desired.len(),
{
    let before = desired.drop_last();
    let wanted = desired.last();
    let kept = to_update(existing, before);
    if has_key(before, wanted.key()) || !has_key(existing, wanted.key()) || i < kept.len() {
        updates_keep_stored_identifiers(existing, before, i);
        lemma_position_kept(before, wanted, kept[i].key());
        lemma_position(before, kept[i].key());
    } else {
        lemma_position(desired, wanted.key());
    }
}

} // verus!
