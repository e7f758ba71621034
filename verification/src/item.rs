//! The stored record and its mathematical view.

use vstd::prelude::*;

verus! {

/// What a [`TextItem`] is in contracts: its id and the characters of its two texts.
pub struct TextItemView {
    pub id: u64,
    pub content: Seq<char>,
    pub created_at: Seq<char>,
}

/// One stored note.
#[derive(Debug, PartialEq, Eq)]
pub struct TextItem {
    /// Assigned by the store, never by the caller.
    pub id: u64,
    /// The caller's text, kept as given.
    pub content: String,
    /// When the item was added, as an RFC 3339 timestamp. Set once.
    pub created_at: String,
}

impl View for TextItem {
    type V = TextItemView;

    open spec fn view(&self) -> TextItemView {
        TextItemView { id: self.id, content: self.content@, created_at: self.created_at@ }
    }
}

impl DeepView for TextItem {
    type V = TextItemView;

    open spec fn deep_view(&self) -> TextItemView {
        self@
    }
}

impl Clone for TextItem {
    fn clone(&self) -> (copy: Self)
        ensures
            copy@ == self@,
    {
        TextItem {
            id: self.id,
            content: self.content.clone(),
            created_at: self.created_at.clone(),
        }
    }
}

} // verus!
