//! The board cache: the live board of each game that is being played.
//!
//! The cache is never the truth. The engine fills it from the game rows
//! and drops an entry the moment its game ends.

use std::collections::HashMap;
use vstd::prelude::*;
use crate::oracle::text_of;

verus! {

/// A live board, held as its canonical encoding.
#[derive(Debug)]
pub struct Board {
    pub fen: String,
}

/// Boards by game identifier.
pub struct BoardCache {
    pub boards: HashMap<usize, Board>,
}

impl BoardCache {
    /// A board is cached for `id`.
    pub open spec fn contains(self, id: usize) -> bool {
        self.boards@.contains_key(id)
    }

    /// The encoding of the board cached for `id`.
    pub open spec fn encoding(self, id: usize) -> Seq<char> {
        self.boards@[id].fen@
    }

    /// What a lookup of `id` gives.
    pub open spec fn lookup(self, id: usize) -> Option<Seq<char>> {
        if self.contains(id) {
            Some(self.encoding(id))
        } else {
            None
        }
    }

    /// An empty cache.
    pub fn new() -> (r: BoardCache)
        ensures
            r.boards@ == Map::<usize, Board>::empty(),
    {
        BoardCache { boards: HashMap::new() }
    }

    /// The encoding of the board cached for `id`, if there is one.
    pub fn get(&self, id: usize) -> (r: Option<String>)
        ensures
            text_of(r) == self.lookup(id),
    {
        broadcast use vstd::std_specs::hash::group_hash_axioms;

        match self.boards.get(&id) {
            Some(b) => Some(b.fen.clone()),
            None => None,
        }
    }

    /// Whether a board is cached for `id`.
    pub fn holds(&self, id: usize) -> (r: bool)
        ensures
            r == self.contains(id),
    {
        broadcast use vstd::std_specs::hash::group_hash_axioms;

        self.boards.contains_key(&id)
    }

    /// Caches `fen` as the board of `id`, in place of what was there.
    pub fn put(&mut self, id: usize, fen: String)
        ensures
            final(self).boards@ == old(self).boards@.insert(id, (Board { fen })),
    {
        broadcast use vstd::std_specs::hash::group_hash_axioms;

        self.boards.insert(id, Board { fen });
    }

    /// Drops the board of `id`, if there is one.
    pub fn evict(&mut self, id: usize)
        ensures
            final(self).boards@ == old(self).boards@.remove(id),
    {
        broadcast use vstd::std_specs::hash::group_hash_axioms;

        self.boards.remove(&id);
    }

    /// How many boards are cached.
    pub fn len(&self) -> (r: usize)
        ensures
            r == self.boards@.len(),
    {
        broadcast use vstd::std_specs::hash::group_hash_axioms;

        self.boards.len()
    }
}

} // verus!
