//! The cached projection of a durably stored character: its id and its
//! display name. The id is assigned by the durable store at insertion time;
//! the name is unique per owner (enforced upstream by a pre-insert check
//! against the store, not by the cache).

use vstd::prelude::*;

verus! {

/// Mathematical model of a [`CharacterRef`]: the id together with the name as
/// a sequence of characters.
pub ghost struct CharacterRefView {
    pub id: u16,
    pub name: Seq<char>,
}

/// A character as the ownership cache holds it: the durable id and the
/// display name, nothing more.
pub struct CharacterRef {
    pub id: u16,
    pub name: String,
}

impl View for CharacterRef {
    type V = CharacterRefView;

    open spec fn view(&self) -> CharacterRefView {
        CharacterRefView { id: self.id, name: self.name@ }
    }
}

impl Clone for CharacterRef {
    fn clone(&self) -> (res: Self)
        ensures
            res == *self,
    {
        CharacterRef { id: self.id, name: self.name.clone() }
    }
}

impl CharacterRef {
    pub fn new(id: u16, name: String) -> (res: Self)
        ensures
            res@ == (CharacterRefView { id, name: name@ }),
    {
        CharacterRef { id, name }
    }
}

/// The views of a sequence of character references, in the same order.
pub open spec fn views_of(chars: Seq<CharacterRef>) -> Seq<CharacterRefView> {
    chars.map_values(|c: CharacterRef| c@)
}

/// One (owner, id, name) triple as the durable store's full scan returns it.
pub struct CharacterRow {
    pub owner: u64,
    pub id: u16,
    pub name: String,
}

/// Mathematical model of a [`CharacterRow`].
pub ghost struct CharacterRowView {
    pub owner: u64,
    pub id: u16,
    pub name: Seq<char>,
}

impl View for CharacterRow {
    type V = CharacterRowView;

    open spec fn view(&self) -> CharacterRowView {
        CharacterRowView { owner: self.owner, id: self.id, name: self.name@ }
    }
}

impl CharacterRow {
    pub fn new(owner: u64, id: u16, name: String) -> (res: Self)
        ensures
            res@ == (CharacterRowView { owner, id, name: name@ }),
    {
        CharacterRow { owner, id, name }
    }
}

/// The character reference a row contributes to its owner's collection.
pub open spec fn row_ref(r: CharacterRowView) -> CharacterRefView {
    CharacterRefView { id: r.id, name: r.name }
}

} // verus!
