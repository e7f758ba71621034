//! What holds of the commands together, proved over the model.

use vstd::prelude::*;
use crate::item::TextItemView;
use crate::model::{
    added, added_all, deleted, distinct_ids, has_id, largest_id, lemma_deleted_absent,
    lemma_deleted_push, lemma_largest_id, lemma_largest_id_push, loaded, new_item, with_content,
    StoreFileView,
};

verus! {

/// An added item gets an id that no item has yet: one above every id in use.
/// So distinct ids stay distinct under an add.
pub proof fn law_add_takes_a_fresh_id(
    texts: Seq<TextItemView>,
    content: Seq<char>,
    created_at: Seq<char>,
)
    requires
        largest_id(texts) < u64::MAX,
    ensures
        forall|i: int|
            0 <= i < texts.len() ==> (#[trigger] texts[i]).id < new_item(
                texts,
                content,
                created_at,
            ).id,
        !has_id(texts, new_item(texts, content, created_at).id),
        texts.len() == 0 ==> new_item(texts, content, created_at).id == 1,
        largest_id(added(texts, content, created_at)) == largest_id(texts) + 1,
        distinct_ids(texts) ==> distinct_ids(added(texts, content, created_at)),
{
    lemma_largest_id(texts);
    lemma_largest_id_push(texts, new_item(texts, content, created_at));
}

/// Over any run of adds the ids rise by one per add, whatever the contents:
/// the add number `k` of the run, counted from 0, makes the item at place
/// `texts.len() + k` with the id `largest_id(texts) + 1 + k`. The items that
/// were there stay in front, unchanged.
pub proof fn law_adds_count_upward(texts: Seq<TextItemView>, adds: Seq<(Seq<char>, Seq<char>)>)
    requires
        largest_id(texts) + adds.len() <= u64::MAX,
    ensures
        added_all(texts, adds).len() == texts.len() + adds.len(),
        added_all(texts, adds).take(texts.len() as int) == texts,
        largest_id(added_all(texts, adds)) == largest_id(texts) + adds.len(),
        forall|k: int|
            0 <= k < adds.len() ==> #[trigger] added_all(texts, adds)[texts.len() + k]
                == (TextItemView {
                id: (largest_id(texts) + 1 + k) as u64,
                content: adds[k].0,
                created_at: adds[k].1,
            }),
    decreases adds.len(),
{
    if adds.len() == 0 {
        assert(texts.take(texts.len() as int) =~= texts);
    } else {
        let earlier = adds.drop_last();
        let so_far = added_all(texts, earlier);
        law_adds_count_upward(texts, earlier);
        lemma_largest_id_push(so_far, new_item(so_far, adds.last().0, adds.last().1));
        let all = added_all(texts, adds);
        assert(all.take(texts.len() as int) =~= so_far.take(texts.len() as int));
        assert forall|k: int| 0 <= k < adds.len() implies #[trigger] all[texts.len() + k]
            == (TextItemView {
            id: (largest_id(texts) + 1 + k) as u64,
            content: adds[k].0,
            created_at: adds[k].1,
        }) by {
            if k < earlier.len() {
                assert(all[texts.len() + k] == so_far[texts.len() + k]);
                assert(earlier[k] == adds[k]);
            }
        }
    }
}

/// A load of what an add wrote gives the collection that the add made, and
/// its last item is the added one.
pub proof fn law_add_then_load(
    file: StoreFileView,
    content: Seq<char>,
    created_at: Seq<char>,
)
    requires
        loaded(file) is Ok,
    ensures
        ({
            let before = loaded(file)->Ok_0;
            let written = added(before, content, created_at);
            &&& loaded(StoreFileView::Loaded(written)) == Ok::<Seq<TextItemView>, Seq<char>>(
                written,
            )
            &&& written.last() == new_item(before, content, created_at)
            &&& written.drop_last() == before
        }),
{
    let before = loaded(file)->Ok_0;
    assert(added(before, content, created_at).drop_last() =~= before);
}

/// An update changes the content of one item and nothing else: every item
/// keeps its place, its id and its time of creation, and every other item its
/// content too. So distinct ids stay distinct.
pub proof fn law_update_changes_content_only(
    texts: Seq<TextItemView>,
    i: int,
    content: Seq<char>,
)
    requires
        0 <= i < texts.len(),
    ensures
        ({
            let after = texts.update(i, with_content(texts[i], content));
            &&& after.len() == texts.len()
            &&& after[i].content == content
            &&& forall|j: int|
                0 <= j < texts.len() ==> (#[trigger] after[j]).id == texts[j].id
                    && after[j].created_at == texts[j].created_at
            &&& forall|j: int| 0 <= j < texts.len() && j != i ==> #[trigger] after[j] == texts[j]
            &&& largest_id(after) == largest_id(texts)
            &&& distinct_ids(texts) ==> distinct_ids(after)
        }),
{
    let after = texts.update(i, with_content(texts[i], content));
    lemma_largest_id(texts);
    lemma_largest_id(after);
    if texts.len() > 0 {
        let a = choose|a: int| 0 <= a < texts.len() && texts[a].id == largest_id(texts) as u64;
        let b = choose|b: int| 0 <= b < after.len() && after[b].id == largest_id(after) as u64;
        assert(after[a].id == texts[a].id);
        assert(after[b].id == texts[b].id);
    }
}

/// After a delete no item has the id, and what is left are items of `texts`;
/// the result is `texts` itself where no item had the id. Distinct ids stay
/// distinct, and among distinct ids at most one item leaves.
pub proof fn law_delete_takes_the_id_out(texts: Seq<TextItemView>, id: u64)
    ensures
        !has_id(deleted(texts, id), id),
        forall|k: int|
            0 <= k < deleted(texts, id).len() ==> texts.contains(#[trigger] deleted(texts, id)[k]),
        forall|i: int|
            0 <= i < texts.len() && texts[i].id != id ==> deleted(texts, id).contains(
                #[trigger] texts[i],
            ),
        !has_id(texts, id) ==> deleted(texts, id) == texts,
        deleted(texts, id).len() <= texts.len(),
        largest_id(deleted(texts, id)) <= largest_id(texts),
        distinct_ids(texts) ==> distinct_ids(deleted(texts, id)),
        distinct_ids(texts) ==> deleted(texts, id).len() + 1 >= texts.len(),
    decreases texts.len(),
{
    let left = deleted(texts, id);
    if !has_id(texts, id) {
        lemma_deleted_absent(texts, id);
    }
    if texts.len() == 0 {
        reveal(Seq::filter);
    } else {
        let rest = texts.drop_last();
        let last = texts.last();
        law_delete_takes_the_id_out(rest, id);
        assert(rest.push(last) =~= texts);
        lemma_deleted_push(rest, last, id);
        let rest_left = deleted(rest, id);
        assert forall|k: int| 0 <= k < left.len() implies texts.contains(#[trigger] left[k]) by {
            if k < rest_left.len() {
                assert(rest.contains(rest_left[k]));
                let i = choose|i: int| 0 <= i < rest.len() && rest[i] == rest_left[k];
                assert(texts[i] == left[k]);
            } else {
                assert(texts[texts.len() - 1] == left[k]);
            }
        }
        assert forall|i: int| 0 <= i < texts.len() && texts[i].id != id implies left.contains(
            #[trigger] texts[i],
        ) by {
            if i < rest.len() {
                assert(rest[i] == texts[i]);
                assert(rest_left.contains(rest[i]));
                let k = choose|k: int| 0 <= k < rest_left.len() && rest_left[k] == rest[i];
                assert(left[k] == texts[i]);
            } else {
                assert(left[left.len() - 1] == texts[i]);
            }
        }
        if distinct_ids(texts) {
            assert(distinct_ids(rest)) by {
                assert forall|i: int, j: int| 0 <= i < j < rest.len() implies (#[trigger] rest[i]).id
                    != (#[trigger] rest[j]).id by {
                    assert(rest[i] == texts[i] && rest[j] == texts[j]);
                }
            }
            if last.id == id {
                assert(!has_id(rest, id)) by {
                    assert forall|i: int| 0 <= i < rest.len() implies rest[i].id != id by {
                        assert(rest[i] == texts[i]);
                        assert(texts[texts.len() - 1].id == id);
                    }
                }
                lemma_deleted_absent(rest, id);
            } else {
                assert forall|i: int, j: int| 0 <= i < j < left.len() implies (#[trigger] left[i]).id
                    != (#[trigger] left[j]).id by {
                    if j < rest_left.len() {
                        assert(rest_left[i] == left[i] && rest_left[j] == left[j]);
                    } else {
                        assert(rest.contains(rest_left[i]));
                        let m = choose|m: int| 0 <= m < rest.len() && rest[m] == rest_left[i];
                        assert(texts[m] == left[i]);
                        assert(texts[texts.len() - 1] == left[j]);
                    }
                }
            }
        }
    }
    lemma_largest_id(left);
    lemma_largest_id(texts);
    if left.len() > 0 {
        let k = choose|k: int| 0 <= k < left.len() && left[k].id == largest_id(left) as u64;
        assert(texts.contains(left[k]));
    }
}

} // verus!
