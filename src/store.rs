use vstd::prelude::*;

verus! {

/// A persisted game.
#[derive(Debug)]
pub struct GameRecord {
    pub id: u64,
    pub name: String,
}

/// Why the store refused a mutation.
#[derive(Debug, Clone, Copy, PartialEq, Eq, Structural)]
pub enum StoreError {
    /// Every identifier has been handed out.
    IdsExhausted,
}

/// The games, each under an identifier of its own.
pub struct GameStore {
    games: Vec<GameRecord>,
    next_id: u64,
}

/// `i` is the position of the record with identifier `id`.
pub open spec fn id_at(games: Seq<GameRecord>, id: u64, i: int) -> bool {
    0 <= i < games.len() && games[i].id == id
}

/// Whether some record has identifier `id`.
pub open spec fn has_id(games: Seq<GameRecord>, id: u64) -> bool {
    exists|i: int| id_at(games, id, i)
}

/// `i` is the position of the first record named `name`.
pub open spec fn first_named(games: Seq<GameRecord>, name: Seq<char>, i: int) -> bool {
    0 <= i < games.len() && games[i].name@ == name && forall|j: int|
        0 <= j < i ==> games[j].name@ != name
}

impl GameStore {
    /// The records, in the order they were created.
    pub closed spec fn records(&self) -> Seq<GameRecord> {
        self.games@
    }

    /// The identifier the next created game receives.
    pub closed spec fn next_id(&self) -> u64 {
        self.next_id
    }

    /// Identifiers are distinct and all below the next one.
    pub closed spec fn wf(&self) -> bool {
        &&& forall|i: int, j: int|
            0 <= i < j < self.games@.len() ==> self.games@[i].id != self.games@[j].id
        &&& forall|i: int| 0 <= i < self.games@.len() ==> self.games@[i].id < self.next_id
    }

    /// An empty store.
    pub fn new() -> (s: GameStore)
        ensures
            s.wf(),
            s.records().len() == 0,
            s.next_id() == 1,
    {
        GameStore { games: Vec::new(), next_id: 1 }
    }

    /// The number of games.
    pub fn len(&self) -> (n: usize)
        ensures
            n == self.records().len(),
    {
        self.games.len()
    }

    /// Creates a game named `name` under a fresh identifier.
    pub fn create(&mut self, name: String) -> (r: Result<GameRecord, StoreError>)
        requires
            old(self).wf(),
        ensures
            final(self).wf(),
            old(self).next_id() < u64::MAX ==> {
                &&& r.is_ok()
                &&& r.unwrap().id == old(self).next_id()
                &&& r.unwrap().name == name
                &&& final(self).records() == old(self).records().push(r.unwrap())
                &&& final(self).next_id() == old(self).next_id() + 1
            },
            old(self).next_id() == u64::MAX ==> r == Err::<GameRecord, StoreError>(
                StoreError::IdsExhausted,
            ) && *final(self) == *old(self),
            !has_id(old(self).records(), old(self).next_id()),
    {
        if self.next_id == u64::MAX {
            return Err(StoreError::IdsExhausted);
        }
        let rec = GameRecord { id: self.next_id, name: name.clone() };
        let out = GameRecord { id: self.next_id, name };
        self.games.push(rec);
        self.next_id = self.next_id + 1;
        Ok(out)
    }

    /// The identifier of the first game named `name`.
    pub fn find_by_name(&self, name: &String) -> (r: Option<u64>)
        ensures
            match r {
                Some(id) => exists|i: int|
                    first_named(self.records(), name@, i) && self.records()[i].id == id,
                None => forall|i: int|
                    0 <= i < self.records().len() ==> self.records()[i].name@ != name@,
            },
    {
        let mut i: usize = 0;
        while i < self.games.len()
            invariant
                i <= self.games@.len(),
                forall|j: int| 0 <= j < i ==> self.games@[j].name@ != name@,
            decreases self.games@.len() - i,
        {
            if self.games[i].name == *name {
                assert(first_named(self.records(), name@, i as int) && self.records()[i as int].id
                    == self.games@[i as int].id);
                return Some(self.games[i].id);
            }
            i = i + 1;
        }
        None
    }

    /// Whether a game has identifier `id`.
    pub fn contains(&self, id: u64) -> (r: bool)
        ensures
            r == has_id(self.records(), id),
    {
        let mut i: usize = 0;
        while i < self.games.len()
            invariant
                i <= self.games@.len(),
                forall|j: int| 0 <= j < i ==> self.games@[j].id != id,
            decreases self.games@.len() - i,
        {
            if self.games[i].id == id {
                assert(id_at(self.games@, id, i as int));
                return true;
            }
            i = i + 1;
        }
        false
    }

    /// Deletes the game with identifier `id`; returns whether there was one.
    pub fn delete(&mut self, id: u64) -> (r: bool)
        requires
            old(self).wf(),
        ensures
            final(self).wf(),
            r == has_id(old(self).records(), id),
            r ==> exists|i: int|
                id_at(old(self).records(), id, i) && final(self).records() == old(
                    self,
                ).records().remove(i),
            !r ==> *final(self) == *old(self),
            !has_id(final(self).records(), id),
            final(self).next_id() == old(self).next_id(),
    {
        let mut i: usize = 0;
        while i < self.games.len()
            invariant
                *self == *old(self),
                self.wf(),
                i <= self.games@.len(),
                forall|j: int| 0 <= j < i ==> self.games@[j].id != id,
            decreases self.games@.len() - i,
        {
            if self.games[i].id == id {
                let ghost before = self.games@;
                assert(id_at(before, id, i as int));
                assert(has_id(old(self).records(), id));
                self.games.remove(i);
                proof {
                    assert(self.games@ == before.remove(i as int));
                    assert forall|k: int| 0 <= k < self.games@.len() implies self.games@[k].id
                        != id by {
                        if k < i {
                        } else {
                            assert(self.games@[k] == before[k + 1]);
                        }
                    }
                    assert forall|a: int, b: int|
                        0 <= a < b < self.games@.len() implies self.games@[a].id
                        != self.games@[b].id by {
                        let a2 = if a < i { a } else { a + 1 };
                        let b2 = if b < i { b } else { b + 1 };
                        assert(self.games@[a] == before[a2]);
                        assert(self.games@[b] == before[b2]);
                    }
                }
                assert(id_at(old(self).records(), id, i as int) && self.records() == old(
                    self,
                ).records().remove(i as int));
                return true;
            }
            i = i + 1;
        }
        proof {
            if has_id(self.games@, id) {
                let k = choose|k: int| id_at(self.games@, id, k);
                assert(self.games@[k].id != id);
            }
        }
        false
    }
}

} // verus!
