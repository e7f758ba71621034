//! The store's commands, each from what the store file held to what it is to
//! hold next.

use vstd::prelude::*;
use crate::item::{TextItem, TextItemView};
use crate::clock::now_rfc3339;
use crate::model;
use crate::model::StoreFileView;

verus! {

/// The message of an update that finds no item with the id.
pub const NOT_FOUND: &'static str = "Text not found";

/// What a read of the store file gave.
#[derive(Debug, PartialEq, Eq)]
pub enum StoreFile {
    /// There is no file at the store's path.
    Missing,
    /// The file was read and held this collection.
    Loaded(Vec<TextItem>),
    /// The file is there and could not be read or decoded; the message says why.
    Failed(String),
}

impl View for StoreFile {
    type V = StoreFileView;

    open spec fn view(&self) -> StoreFileView {
        match self {
            StoreFile::Missing => StoreFileView::Missing,
            StoreFile::Loaded(texts) => StoreFileView::Loaded(texts.deep_view()),
            StoreFile::Failed(message) => StoreFileView::Failed(message@),
        }
    }
}

/// The collection in the store file: empty where the file is missing, and an
/// error with the underlying message where it could not be read or decoded.
pub fn load_texts(file: StoreFile) -> (r: Result<Vec<TextItem>, String>)
    ensures
        match r {
            Ok(texts) => model::loaded(file@) == Ok::<Seq<TextItemView>, Seq<char>>(
                texts.deep_view(),
            ),
            Err(message) => model::loaded(file@) == Err::<Seq<TextItemView>, Seq<char>>(message@),
        },
{
    match file {
        StoreFile::Missing => {
            let texts: Vec<TextItem> = Vec::new();
            assert(texts.deep_view() =~= Seq::empty());
            Ok(texts)
        },
        StoreFile::Loaded(texts) => Ok(texts),
        StoreFile::Failed(message) => Err(message),
    }
}

/// The greatest id in use, 0 in an empty collection.
pub fn largest_id(texts: &Vec<TextItem>) -> (id: u64)
    ensures
        id == model::largest_id(texts.deep_view()),
{
    let mut id: u64 = 0;
    let mut i: usize = 0;
    while i < texts.len()
        invariant
            i <= texts.len(),
            id == model::largest_id(texts.deep_view().take(i as int)),
        decreases texts.len() - i,
    {
        proof {
            let seen = texts.deep_view().take(i as int);
            assert(texts.deep_view().take(i + 1) =~= seen.push(texts[i as int]@));
            model::lemma_largest_id_push(seen, texts[i as int]@);
        }
        if texts[i].id > id {
            id = texts[i].id;
        }
        i += 1;
    }
    assert(texts.deep_view().take(texts.len() as int) =~= texts.deep_view());
    id
}

/// Puts an item with this content and time of creation at the end of
/// `texts`, under the next id, and gives a copy of it.
pub fn append_text(texts: &mut Vec<TextItem>, content: String, created_at: String) -> (item:
    TextItem)
    requires
        model::largest_id(old(texts).deep_view()) < u64::MAX,
    ensures
        item@ == model::new_item(old(texts).deep_view(), content@, created_at@),
        final(texts).deep_view() == model::added(old(texts).deep_view(), content@, created_at@),
{
    let ghost before = texts.deep_view();
    let item = TextItem { id: largest_id(texts) + 1, content, created_at };
    texts.push(item.clone());
    assert(texts.deep_view() =~= before.push(item@));
    item
}

/// Adds an item with this content to the collection in `file`, stamped with
/// the current time. Gives the collection to write and the new item; fails
/// with the file's message where the file failed, and only then.
///
/// The contract leaves the stamp open, since the clock decides it; all else
/// is as [`append_text`] states it for that stamp.
pub fn add_text(file: StoreFile, content: String) -> (r: Result<(Vec<TextItem>, TextItem), String>)
    requires
        model::loaded(file@) matches Ok(before) ==> model::largest_id(before) < u64::MAX,
    ensures
        match r {
            Ok((texts, item)) => {
                &&& model::loaded(file@) matches Ok(before)
                &&& item@ == model::new_item(before, content@, item@.created_at)
                &&& texts.deep_view() == model::added(before, content@, item@.created_at)
            },
            Err(message) => model::loaded(file@) == Err::<Seq<TextItemView>, Seq<char>>(message@),
        },
{
    let mut texts = match load_texts(file) {
        Ok(texts) => texts,
        Err(message) => { return Err(message); },
    };
    let created_at = now_rfc3339();
    let item = append_text(&mut texts, content, created_at);
    Ok((texts, item))
}

/// Gives the first item with this id another content; its id and time of
/// creation stay, and so does every other item. Gives the collection to
/// write and the changed item. Fails with the file's message where the file
/// failed, and with [`NOT_FOUND`] where no item has the id.
pub fn update_text(file: StoreFile, id: u64, content: String) -> (r: Result<
    (Vec<TextItem>, TextItem),
    String,
>)
    ensures
        match r {
            Ok((texts, item)) => {
                &&& model::loaded(file@) matches Ok(before)
                &&& exists|i: int|
                    {
                        &&& model::is_first_with_id(before, id, i)
                        &&& item@ == model::with_content(before[i], content@)
                        &&& texts.deep_view() == before.update(i, item@)
                    }
            },
            Err(message) => match model::loaded(file@) {
                Ok(before) => !model::has_id(before, id) && message@ == NOT_FOUND@,
                Err(failure) => message@ == failure,
            },
        },
{
    let mut texts = match load_texts(file) {
        Ok(texts) => texts,
        Err(message) => { return Err(message); },
    };
    let ghost before = texts.deep_view();
    assert(model::loaded(file@)->Ok_0 == before);
    let mut i: usize = 0;
    while i < texts.len() && texts[i].id != id
        invariant
            i <= texts.len(),
            texts.deep_view() == before,
            forall|j: int| 0 <= j < i ==> (#[trigger] before[j]).id != id,
        decreases texts.len() - i,
    {
        assert(before[i as int] == texts[i as int]@);
        i += 1;
    }
    if i == texts.len() {
        return Err(NOT_FOUND.to_owned());
    }
    assert(before[i as int] == texts[i as int]@);
    let item = TextItem { id, content, created_at: texts[i].created_at.clone() };
    texts.set(i, item.clone());
    proof {
        assert(model::is_first_with_id(before, id, i as int));
        assert(texts.deep_view() =~= before.update(i as int, item@));
    }
    Ok((texts, item))
}

/// Takes every item with this id out of the collection in `file`; the others
/// keep their order. Gives the collection to write, which is the one read
/// where no item has the id. Fails with the file's message where the file
/// failed.
pub fn delete_text(file: StoreFile, id: u64) -> (r: Result<Vec<TextItem>, String>)
    ensures
        match r {
            Ok(texts) => {
                &&& model::loaded(file@) matches Ok(before)
                &&& texts.deep_view() == model::deleted(before, id)
                &&& !model::has_id(before, id) ==> texts.deep_view() == before
            },
            Err(message) => model::loaded(file@) == Err::<Seq<TextItemView>, Seq<char>>(message@),
        },
{
    let texts = match load_texts(file) {
        Ok(texts) => texts,
        Err(message) => { return Err(message); },
    };
    let ghost before = texts.deep_view();
    let ghost stored = texts@;
    let mut kept: Vec<TextItem> = Vec::new();
    assert(kept.deep_view() =~= model::deleted(before.take(0), id)) by {
        reveal(Seq::filter);
    }
    for item in iter: texts
        invariant
            iter.seq() == stored,
            before.len() == stored.len(),
            forall|k: int| 0 <= k < stored.len() ==> before[k] == (#[trigger] stored[k])@,
            kept.deep_view() == model::deleted(before.take(iter.index() as int), id),
    {
        let ghost seen = iter.index() as int;
        let ghost so_far = kept.deep_view();
        proof {
            assert(item == stored[seen]);
            assert(before.take(seen + 1) =~= before.take(seen).push(before[seen]));
            model::lemma_deleted_push(before.take(seen), before[seen], id);
        }
        if item.id != id {
            kept.push(item);
            assert(kept.deep_view() =~= so_far.push(before[seen]));
        }
    }
    proof {
        assert(before.take(before.len() as int) =~= before);
        if !model::has_id(before, id) {
            model::lemma_deleted_absent(before, id);
        }
    }
    Ok(kept)
}

} // verus!
