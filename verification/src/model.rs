//! The store as mathematics: the collection is a sequence of item views, and
//! each command is a function on such sequences.

use vstd::prelude::*;
use crate::item::TextItemView;

verus! {

/// Whether some item of `texts` has this id.
pub open spec fn has_id(texts: Seq<TextItemView>, id: u64) -> bool {
    exists|i: int| 0 <= i < texts.len() && texts[i].id == id
}

/// The greatest id among `texts`, and 0 where there is no item.
pub open spec fn largest_id(texts: Seq<TextItemView>) -> nat
    decreases texts.len(),
{
    if texts.len() == 0 {
        0
    } else {
        let before = largest_id(texts.drop_last());
        if texts.last().id > before {
            texts.last().id as nat
        } else {
            before
        }
    }
}

/// `largest_id` is an upper bound of the ids, and one of them unless there is none.
pub proof fn lemma_largest_id(texts: Seq<TextItemView>)
    ensures
        forall|i: int| 0 <= i < texts.len() ==> (#[trigger] texts[i]).id <= largest_id(texts),
        texts.len() > 0 ==> has_id(texts, largest_id(texts) as u64),
        texts.len() == 0 ==> largest_id(texts) == 0,
        largest_id(texts) <= u64::MAX,
    decreases texts.len(),
{
    if texts.len() > 0 {
        let rest = texts.drop_last();
        lemma_largest_id(rest);
        assert forall|i: int| 0 <= i < texts.len() implies (#[trigger] texts[i]).id <= largest_id(
            texts,
        ) by {
            if i < rest.len() {
                assert(rest[i] == texts[i]);
            }
        }
        if texts.last().id > largest_id(rest) || rest.len() == 0 {
            assert(texts[texts.len() - 1].id == largest_id(texts));
        } else {
            let i = choose|i: int| 0 <= i < rest.len() && rest[i].id == largest_id(rest) as u64;
            assert(texts[i].id == largest_id(texts));
        }
    }
}

/// The id that the next added item gets: one more than the greatest in use,
/// so 1 in an empty collection.
pub open spec fn next_id(texts: Seq<TextItemView>) -> nat {
    largest_id(texts) + 1
}

/// How `largest_id` grows with one more item at the end.
pub proof fn lemma_largest_id_push(texts: Seq<TextItemView>, item: TextItemView)
    ensures
        largest_id(texts.push(item)) == if item.id > largest_id(texts) {
            item.id as nat
        } else {
            largest_id(texts)
        },
{
    assert(texts.push(item).drop_last() =~= texts);
}

/// What a read of the store file gave, in contracts.
pub enum StoreFileView {
    /// No file.
    Missing,
    /// A file that held these items, in this order.
    Loaded(Seq<TextItemView>),
    /// A file that could not be read or decoded, and the message of why.
    Failed(Seq<char>),
}

/// The collection that a command starts from: none where the file is
/// missing, the file's where it was read, and the failure's message where it
/// was not.
pub open spec fn loaded(file: StoreFileView) -> Result<Seq<TextItemView>, Seq<char>> {
    match file {
        StoreFileView::Missing => Ok(Seq::empty()),
        StoreFileView::Loaded(texts) => Ok(texts),
        StoreFileView::Failed(message) => Err(message),
    }
}

/// The item that an add creates in `texts`.
pub open spec fn new_item(
    texts: Seq<TextItemView>,
    content: Seq<char>,
    created_at: Seq<char>,
) -> TextItemView {
    TextItemView { id: next_id(texts) as u64, content, created_at }
}

/// `texts` after an add: the new item comes last, the others stay as they are.
pub open spec fn added(
    texts: Seq<TextItemView>,
    content: Seq<char>,
    created_at: Seq<char>,
) -> Seq<TextItemView> {
    texts.push(new_item(texts, content, created_at))
}

/// Whether `i` is the place of the first item of `texts` with this id.
pub open spec fn is_first_with_id(texts: Seq<TextItemView>, id: u64, i: int) -> bool {
    &&& 0 <= i < texts.len()
    &&& texts[i].id == id
    &&& forall|j: int| 0 <= j < i ==> (#[trigger] texts[j]).id != id
}

/// `item` with another content, and the same id and time of creation.
pub open spec fn with_content(item: TextItemView, content: Seq<char>) -> TextItemView {
    TextItemView { id: item.id, content, created_at: item.created_at }
}

/// `texts` without the items that have this id, the others in their order.
pub open spec fn deleted(texts: Seq<TextItemView>, id: u64) -> Seq<TextItemView> {
    texts.filter(|item: TextItemView| item.id != id)
}

/// How `deleted` grows with one more item at the end.
pub proof fn lemma_deleted_push(texts: Seq<TextItemView>, item: TextItemView, id: u64)
    ensures
        deleted(texts.push(item), id) == if item.id != id {
            deleted(texts, id).push(item)
        } else {
            deleted(texts, id)
        },
{
    reveal(Seq::filter);
    assert(texts.push(item).drop_last() =~= texts);
}

/// A delete of an id that no item has changes nothing.
pub proof fn lemma_deleted_absent(texts: Seq<TextItemView>, id: u64)
    requires
        !has_id(texts, id),
    ensures
        deleted(texts, id) == texts,
    decreases texts.len(),
{
    reveal(Seq::filter);
    if texts.len() > 0 {
        let rest = texts.drop_last();
        assert forall|i: int| 0 <= i < rest.len() implies rest[i].id != id by {
            assert(rest[i] == texts[i]);
        }
        lemma_deleted_absent(rest, id);
        assert(texts[texts.len() - 1].id != id);
        assert(rest.push(texts.last()) =~= texts);
    }
}

/// Whether no two items of `texts` share an id.
pub open spec fn distinct_ids(texts: Seq<TextItemView>) -> bool {
    forall|i: int, j: int|
        0 <= i < j < texts.len() ==> (#[trigger] texts[i]).id != (#[trigger] texts[j]).id
}

/// `texts` after one add for each pair of `adds`, a content and a time of
/// creation, in their order.
pub open spec fn added_all(
    texts: Seq<TextItemView>,
    adds: Seq<(Seq<char>, Seq<char>)>,
) -> Seq<TextItemView>
    decreases adds.len(),
{
    if adds.len() == 0 {
        texts
    } else {
        added(added_all(texts, adds.drop_last()), adds.last().0, adds.last().1)
    }
}

} // verus!
