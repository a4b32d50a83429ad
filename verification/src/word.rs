use vstd::prelude::*;

verus! {

/// Identifier of a user who owns a span of text; never zero.
pub type User = u16;

/// Counter used to number the words a user has produced.
pub type WordCounter_t = u32;

/// Identity of a word in an ownership-tagged buffer: the owning user
/// (absent for the two sentinel words) and a per-user counter value.
/// The sentinels `start` and `end` carry the smallest and largest
/// counter values, so every real word sorts between them.
pub struct WordId {
    pub owner: Option<User>,
    pub id: WordCounter_t,
}

impl WordId {
    /// A word identity owned by user `uid` with counter value `id`.
    pub fn new(uid: User, id: WordCounter_t) -> (r: Self)
        requires
            uid != 0,
        ensures
            r.owner == Some(uid),
            r.id == id,
    {
        Self { owner: Some(uid), id }
    }

    /// The sentinel that sorts before every owned word.
    pub fn start() -> (r: Self)
        ensures
            r.owner is None,
            r.id == u32::MIN,
    {
        Self { owner: None, id: u32::MIN }
    }

    /// The sentinel that sorts after every owned word.
    pub fn end() -> (r: Self)
        ensures
            r.owner is None,
            r.id == u32::MAX,
    {
        Self { owner: None, id: u32::MAX }
    }
}

} // verus!
