//! Reconciliation of tag associations: the difference between the
//! associations that are stored and the associations that are wanted, as
//! three batches to create, to update and to delete.
//!
//! An association is identified by the pair of its tag and the entity it
//! refers to. Its own identifier and its value play no part in that identity.

use crate::model::tag::{TaggedItem, TaggedItemView};
use crate::text::copy_text;
use crate::util::{new_ids, uid_len};
use vstd::prelude::*;

verus! {

/// The identity of an association: tag identifier, then entity identifier.
pub type Key = (Seq<char>, Seq<char>);

/// The views of a sequence of associations.
pub open spec fn item_views(items: Seq<TaggedItem>) -> Seq<TaggedItemView> {
    items.map_values(|item: TaggedItem| item@)
}

/// Index of the first association in `items` with identity `key`, or the
/// length of `items` where there is none.
pub open spec fn position(items: Seq<TaggedItemView>, key: Key) -> int
    decreases items.len(),
{
    if items.len() == 0 {
        0
    } else {
        let before = position(items.drop_last(), key);
        if before < items.len() - 1 {
            before
        } else if items.last().key() == key {
            items.len() - 1
        } else {
            items.len() as int
        }
    }
}

/// Whether some association in `items` has identity `key`.
pub open spec fn has_key(items: Seq<TaggedItemView>, key: Key) -> bool {
    position(items, key) < items.len()
}

/// The first association in `items` with identity `key`.
pub open spec fn stored(items: Seq<TaggedItemView>, key: Key) -> TaggedItemView
    recommends
        has_key(items, key),
{
    items[position(items, key)]
}

/// A wanted association as it is written over the stored one with the same
/// identity: the stored identifier is kept, the value is the wanted one.
pub open spec fn revalued(existing: Seq<TaggedItemView>, wanted: TaggedItemView) -> TaggedItemView {
    TaggedItemView {
        id: stored(existing, wanted.key()).id,
        ref_id: wanted.ref_id,
        tag_id: wanted.tag_id,
        value: wanted.value,
    }
}

/// The associations to create: each wanted identity that is not stored, once,
/// in the order in which the caller first named it.
pub open spec fn to_create(existing: Seq<TaggedItemView>, desired: Seq<TaggedItemView>) -> Seq<
    TaggedItemView,
>
    decreases desired.len(),
{
    if desired.len() == 0 {
        Seq::empty()
    } else {
        let before = desired.drop_last();
        let wanted = desired.last();
        if has_key(before, wanted.key()) || has_key(existing, wanted.key()) {
            to_create(existing, before)
        } else {
            to_create(existing, before).push(wanted)
        }
    }
}

/// The associations to update: each wanted identity that is stored, once, in
/// the order in which the caller first named it, under the stored identifier
/// and with the wanted value.
pub open spec fn to_update(existing: Seq<TaggedItemView>, desired: Seq<TaggedItemView>) -> Seq<
    TaggedItemView,
>
    decreases desired.len(),
{
    if desired.len() == 0 {
        Seq::empty()
    } else {
        let before = desired.drop_last();
        let wanted = desired.last();
        if has_key(before, wanted.key()) || !has_key(existing, wanted.key()) {
            to_update(existing, before)
        } else {
            to_update(existing, before).push(revalued(existing, wanted))
        }
    }
}

/// The associations to delete: each stored association whose identity is not
/// wanted, in stored order.
pub open spec fn to_delete(existing: Seq<TaggedItemView>, desired: Seq<TaggedItemView>) -> Seq<
    TaggedItemView,
>
    decreases existing.len(),
{
    if existing.len() == 0 {
        Seq::empty()
    } else {
        let before = existing.drop_last();
        let kept = existing.last();
        if has_key(desired, kept.key()) {
            to_delete(before, desired)
        } else {
            to_delete(before, desired).push(kept)
        }
    }
}

/// Whether `made` is `planned` with an identifier assigned to each
/// association: the same associations in the same order, each under an
/// identifier of the length that new identifiers have.
pub open spec fn identified(made: Seq<TaggedItemView>, planned: Seq<TaggedItemView>) -> bool {
    &&& made.len() == planned.len()
    &&& forall|i: int|
        0 <= i < made.len() ==> {
            &&& (#[trigger] made[i]).ref_id == planned[i].ref_id
            &&& made[i].tag_id == planned[i].tag_id
            &&& made[i].value == planned[i].value
            &&& made[i].id.len() == uid_len()
        }
}

/// `planned` with the identifiers `ids` assigned in order.
pub open spec fn with_ids(planned: Seq<TaggedItemView>, ids: Seq<Seq<char>>) -> Seq<TaggedItemView>
    recommends
        ids.len() == planned.len(),
{
    Seq::new(
        planned.len(),
        |i: int|
            TaggedItemView {
                id: ids[i],
                ref_id: planned[i].ref_id,
                tag_id: planned[i].tag_id,
                value: planned[i].value,
            },
    )
}

/// The three batches of one reconciliation.
#[derive(Debug, Clone, PartialEq, Eq)]
pub struct Reconciliation {
    /// Associations that are wanted and not stored.
    pub create: Vec<TaggedItem>,
    /// Associations that are wanted and stored, under their stored
    /// identifiers and with their wanted values.
    pub update: Vec<TaggedItem>,
    /// Associations that are stored and not wanted.
    pub delete: Vec<TaggedItem>,
}

impl Reconciliation {
    /// Whether the batches are the difference between `existing` and
    /// `desired`, the batch to create still under the identifiers the caller
    /// gave its associations.
    pub open spec fn is_difference(
        self,
        existing: Seq<TaggedItemView>,
        desired: Seq<TaggedItemView>,
    ) -> bool {
        &&& item_views(self.create@) == to_create(existing, desired)
        &&& item_views(self.update@) == to_update(existing, desired)
        &&& item_views(self.delete@) == to_delete(existing, desired)
    }

    /// Whether the batches are the difference between `existing` and
    /// `desired`, each association to create under a new identifier.
    pub open spec fn reconciles(
        self,
        existing: Seq<TaggedItemView>,
        desired: Seq<TaggedItemView>,
    ) -> bool {
        &&& identified(item_views(self.create@), to_create(existing, desired))
        &&& item_views(self.update@) == to_update(existing, desired)
        &&& item_views(self.delete@) == to_delete(existing, desired)
    }

    /// What the reconciliation commits: the created associations, then the
    /// updated ones.
    pub open spec fn committed_views(self) -> Seq<TaggedItemView> {
        item_views(self.create@) + item_views(self.update@)
    }

    /// The associations that the reconciliation commits: those created, then
    /// those updated. Deleted associations are not among them.
    pub fn committed(&self) -> (items: Vec<TaggedItem>)
        ensures
            item_views(items@) == self.committed_views(),
    {
        let mut items: Vec<TaggedItem> = Vec::new();
        append_copies(&mut items, &self.create);
        append_copies(&mut items, &self.update);
        proof {
            assert(Seq::<TaggedItemView>::empty() + item_views(self.create@) == item_views(
                self.create@,
            ));
        }
        items
    }

    /// Whether nothing is to be written.
    pub fn is_empty(&self) -> (empty: bool)
        ensures
            empty == (self.create@.len() == 0 && self.update@.len() == 0 && self.delete@.len()
                == 0),
    {
        self.create.len() == 0 && self.update.len() == 0 && self.delete.len() == 0
    }
}

/// Appends a copy of each association in `source` to `target`.
pub fn append_copies(target: &mut Vec<TaggedItem>, source: &Vec<TaggedItem>)
    ensures
        item_views(final(target)@) == item_views(old(target)@) + item_views(source@),
{
    let ghost start = item_views(target@);
    let mut i: usize = 0;
    while i < source.len()
        invariant
            i <= source.len(),
            item_views(target@) == start + item_views(source@).take(i as int),
        decreases source.len() - i,
    {
        let copy = source[i].duplicate();
        proof {
            assert(item_views(target@.push(copy)) == item_views(target@).push(copy@));
            assert(item_views(source@).take(i + 1) == item_views(source@).take(i as int).push(
                copy@,
            ));
        }
        target.push(copy);
        i = i + 1;
    }
    proof {
        assert(item_views(source@).take(source.len() as int) == item_views(source@));
    }
}

/// What `position` finds: an index within bounds or the length, the identity
/// at the index, and no such identity before it.
pub proof fn lemma_position(items: Seq<TaggedItemView>, key: Key)
    ensures
        0 <= position(items, key) <= items.len(),
        has_key(items, key) ==> items[position(items, key)].key() == key,
        forall|i: int| 0 <= i < position(items, key) ==> (#[trigger] items[i]).key() != key,
    decreases items.len(),
{
    if items.len() > 0 {
        let before = items.drop_last();
        lemma_position(before, key);
        assert forall|i: int| 0 <= i < position(items, key) implies (#[trigger] items[i]).key()
            != key by {
            if i < before.len() {
                assert(items[i] == before[i]);
            }
        }
    }
}

/// An index that holds the identity, with no such identity before it, is
/// what `position` finds.
pub proof fn lemma_position_is(items: Seq<TaggedItemView>, key: Key, at: int)
    requires
        0 <= at <= items.len(),
        at < items.len() ==> items[at].key() == key,
        forall|i: int| 0 <= i < at ==> (#[trigger] items[i]).key() != key,
    ensures
        position(items, key) == at,
{
    lemma_position(items, key);
}

/// An identity is found in a sequence exactly when some index holds it.
pub proof fn lemma_has_key(items: Seq<TaggedItemView>, key: Key)
    ensures
        has_key(items, key) <==> exists|i: int|
            0 <= i < items.len() && (#[trigger] items[i]).key() == key,
{
    lemma_position(items, key);
    if has_key(items, key) {
        assert(items[position(items, key)].key() == key);
    }
}

/// Index within the first `upto` associations of the first one that has the
/// identity of `probe`, or `upto` where there is none.
fn find(items: &Vec<TaggedItem>, upto: usize, probe: &TaggedItem) -> (at: usize)
    requires
        upto <= items.len(),
    ensures
        at == position(item_views(items@).take(upto as int), probe@.key()),
        at <= upto,
{
    let ghost head = item_views(items@).take(upto as int);
    let mut at: usize = 0;
    while at < upto
        invariant
            at <= upto <= items.len(),
            head == item_views(items@).take(upto as int),
            forall|i: int| 0 <= i < at ==> (#[trigger] head[i]).key() != probe@.key(),
        decreases upto - at,
    {
        if items[at].same_key(probe) {
            proof {
                assert(head[at as int] == items@[at as int]@);
                lemma_position_is(head, probe@.key(), at as int);
            }
            return at;
        }
        proof {
            assert(head[at as int] == items@[at as int]@);
        }
        at = at + 1;
    }
    proof {
        lemma_position_is(head, probe@.key(), upto as int);
    }
    at
}

/// The difference between the stored associations `existing` and the wanted
/// associations `desired`. An association to create keeps the identifier the
/// caller gave it; one to update carries the identifier of the stored
/// association and the wanted value; one to delete is the stored association.
pub fn diff(existing: &Vec<TaggedItem>, desired: &Vec<TaggedItem>) -> (plan: Reconciliation)
    ensures
        plan.is_difference(item_views(existing@), item_views(desired@)),
{
    let ghost stored_views = item_views(existing@);
    let ghost wanted_views = item_views(desired@);
    let mut create: Vec<TaggedItem> = Vec::new();
    let mut update: Vec<TaggedItem> = Vec::new();
    let mut i: usize = 0;
    while i < desired.len()
        invariant
            i <= desired.len(),
            stored_views == item_views(existing@),
            wanted_views == item_views(desired@),
            item_views(create@) == to_create(stored_views, wanted_views.take(i as int)),
            item_views(update@) == to_update(stored_views, wanted_views.take(i as int)),
        decreases desired.len() - i,
    {
        let wanted = &desired[i];
        let earlier = find(desired, i, wanted);
        let at = find(existing, existing.len(), wanted);
        proof {
            let next = wanted_views.take(i + 1);
            assert(next.drop_last() == wanted_views.take(i as int));
            assert(next.last() == wanted@);
            assert(stored_views.take(existing.len() as int) == stored_views);
        }
        if earlier == i {
            if at < existing.len() {
                let revalued_item = TaggedItem {
                    id: existing[at].id.clone(),
                    ref_id: wanted.ref_id.clone(),
                    tag_id: wanted.tag_id.clone(),
                    value: copy_text(&wanted.value),
                };
                proof {
                    assert(stored_views[at as int] == existing@[at as int]@);
                    assert(revalued_item@ == revalued(stored_views, wanted@));
                    assert(item_views(update@.push(revalued_item)) == item_views(update@).push(
                        revalued_item@,
                    ));
                }
                update.push(revalued_item);
            } else {
                let new_item = wanted.duplicate();
                proof {
                    assert(item_views(create@.push(new_item)) == item_views(create@).push(
                        new_item@,
                    ));
                }
                create.push(new_item);
            }
        }
        i = i + 1;
    }
    proof {
        assert(wanted_views.take(desired.len() as int) == wanted_views);
    }
    let mut delete: Vec<TaggedItem> = Vec::new();
    let mut j: usize = 0;
    while j < existing.len()
        invariant
            j <= existing.len(),
            stored_views == item_views(existing@),
            wanted_views == item_views(desired@),
            item_views(delete@) == to_delete(stored_views.take(j as int), wanted_views),
        decreases existing.len() - j,
    {
        let kept = &existing[j];
        let at = find(desired, desired.len(), kept);
        proof {
            let next = stored_views.take(j + 1);
            assert(next.drop_last() == stored_views.take(j as int));
            assert(next.last() == kept@);
            assert(wanted_views.take(desired.len() as int) == wanted_views);
        }
        if at == desired.len() {
            let gone = kept.duplicate();
            proof {
                assert(item_views(delete@.push(gone)) == item_views(delete@).push(gone@));
            }
            delete.push(gone);
        }
        j = j + 1;
    }
    proof {
        assert(stored_views.take(existing.len() as int) == stored_views);
    }
    Reconciliation { create, update, delete }
}

/// The associations `planned` with the identifiers `ids` assigned in order.
pub fn assign_ids(planned: Vec<TaggedItem>, ids: Vec<String>) -> (made: Vec<TaggedItem>)
    requires
        ids.len() == planned.len(),
    ensures
        item_views(made@) == with_ids(item_views(planned@), ids@.map_values(|id: String| id@)),
{
    let mut made: Vec<TaggedItem> = Vec::new();
    let mut i: usize = 0;
    while i < planned.len()
        invariant
            i <= planned.len(),
            ids.len() == planned.len(),
            made.len() == i,
            forall|k: int|
                0 <= k < i ==> (#[trigger] made@[k])@ == (TaggedItemView {
                    id: ids@[k]@,
                    ref_id: planned@[k]@.ref_id,
                    tag_id: planned@[k]@.tag_id,
                    value: planned@[k]@.value,
                }),
        decreases planned.len() - i,
    {
        let item = TaggedItem {
            id: ids[i].clone(),
            ref_id: planned[i].ref_id.clone(),
            tag_id: planned[i].tag_id.clone(),
            value: copy_text(&planned[i].value),
        };
        made.push(item);
        i = i + 1;
    }
    proof {
        assert(item_views(made@) =~= with_ids(
            item_views(planned@),
            ids@.map_values(|id: String| id@),
        ));
    }
    made
}

/// Reconciles the stored associations `existing` with the wanted
/// associations `desired`: the difference between the two, with a new
/// identifier for each association to create.
pub fn reconcile(existing: &Vec<TaggedItem>, desired: &Vec<TaggedItem>) -> (plan: Reconciliation)
    ensures
        plan.reconciles(item_views(existing@), item_views(desired@)),
{
    let planned = diff(existing, desired);
    let ids = new_ids(planned.create.len());
    let create = assign_ids(planned.create, ids);
    Reconciliation { create, update: planned.update, delete: planned.delete }
}

} // verus!
