//! The row bookkeeping of the in-memory vector store: one row per lesson,
//! an id → row index, and a generation counter bumped on every change.
//! Rows are generic, so the arithmetic on vectors stays outside.

use std::collections::HashMap;

use vstd::prelude::*;
use vstd::std_specs::iter::IteratorSpec;

use crate::common::LessonId;

verus! {

broadcast use vstd::std_specs::hash::group_hash_axioms;

/// Some key that maps to `row`, if any.
fn key_for_row(m: &HashMap<u128, usize>, row: usize) -> (r: Option<u128>)
    ensures
        match r {
            Some(k) => m@.contains_key(k) && m@[k] == row,
            None => forall|k: u128| m@.contains_key(k) ==> m@[k] != row,
        },
{
    for (k, v) in it: m.iter()
        invariant
            forall|i: int| 0 <= i < it.index() ==> *(#[trigger] it.seq()[i]).1 != row,
            it.seq() == vstd::std_specs::hash::spec_hash_map_iter(m).remaining(),
    {
        if *v == row {
            return Some(*k);
        }
    }
    None
}

/// The rows of a vector store and the index from lesson ids to rows.
#[derive(Debug)]
pub struct VectorRows<T> {
    rows: Vec<T>,
    id_to_row: HashMap<u128, usize>,
    generation: u64,
}

impl<T> VectorRows<T> {
    /// The rows, in order.
    pub closed spec fn rows_spec(&self) -> Seq<T> {
        self.rows@
    }

    /// The index from lesson id (its 128-bit value) to row.
    pub closed spec fn index_spec(&self) -> Map<u128, usize> {
        self.id_to_row@
    }

    /// The mutation counter.
    pub closed spec fn generation_spec(&self) -> u64 {
        self.generation
    }

    /// Every indexed row exists.
    pub open spec fn consistent(&self) -> bool {
        forall|id: u128|
            #[trigger] self.index_spec().contains_key(id) ==> self.index_spec()[id]
                < self.rows_spec().len()
    }

    /// No two lessons share a row.
    pub open spec fn injective(&self) -> bool {
        forall|a: u128, b: u128|
            #[trigger] self.index_spec().contains_key(a) && #[trigger] self.index_spec().contains_key(
                b,
            ) && a != b ==> self.index_spec()[a] != self.index_spec()[b]
    }

    /// A consistent, injective index.
    pub open spec fn well_formed(&self) -> bool {
        self.consistent() && self.injective()
    }

    /// What the store holds: each indexed lesson's row.
    pub open spec fn contents(&self) -> Map<u128, T> {
        Map::new(
            |id: u128| self.index_spec().contains_key(id),
            |id: u128| self.rows_spec()[self.index_spec()[id] as int],
        )
    }

    /// An empty store at generation 0.
    pub fn new() -> (s: VectorRows<T>)
        ensures
            s.rows_spec().len() == 0,
            s.index_spec() == Map::<u128, usize>::empty(),
            s.generation_spec() == 0,
            s.well_formed(),
    {
        VectorRows { rows: Vec::new(), id_to_row: HashMap::new(), generation: 0 }
    }

    /// Rows read back from disk at `generation`, with an empty index.
    pub fn from_rows(rows: Vec<T>, generation: u64) -> (s: VectorRows<T>)
        ensures
            s.rows_spec() == rows@,
            s.index_spec() == Map::<u128, usize>::empty(),
            s.generation_spec() == generation,
            s.well_formed(),
    {
        VectorRows { rows, id_to_row: HashMap::new(), generation }
    }

    /// Replaces the index (for example, one rebuilt from the lesson table).
    pub fn load_index(&mut self, index: HashMap<u128, usize>)
        ensures
            final(self).index_spec() == index@,
            final(self).rows_spec() == old(self).rows_spec(),
            final(self).generation_spec() == old(self).generation_spec(),
    {
        self.id_to_row = index;
    }

    /// The mutation counter.
    pub fn generation(&self) -> (g: u64)
        ensures
            g == self.generation_spec(),
    {
        self.generation
    }

    /// Number of rows.
    pub fn len(&self) -> (n: usize)
        ensures
            n == self.rows_spec().len(),
    {
        self.rows.len()
    }

    /// Whether there are no rows.
    pub fn is_empty(&self) -> (b: bool)
        ensures
            b == (self.rows_spec().len() == 0),
    {
        self.rows.len() == 0
    }

    /// The rows, in order.
    pub fn rows(&self) -> (r: &Vec<T>)
        ensures
            r@ == self.rows_spec(),
    {
        &self.rows
    }

    /// The row of a lesson, if it is indexed.
    pub fn row_of(&self, id: LessonId) -> (r: Option<usize>)
        ensures
            match r {
                Some(row) => self.index_spec().contains_key(id.0) && self.index_spec()[id.0] == row,
                None => !self.index_spec().contains_key(id.0),
            },
    {
        match self.id_to_row.get(&id.0) {
            Some(row) => Some(*row),
            None => None,
        }
    }

    /// Inserts a lesson's row, or replaces it when the lesson is indexed,
    /// and bumps the generation.
    pub fn upsert(&mut self, id: LessonId, v: T)
        requires
            old(self).index_spec().contains_key(id.0) ==> old(self).index_spec()[id.0]
                < old(self).rows_spec().len(),
            old(self).generation_spec() < u64::MAX,
        ensures
            final(self).generation_spec() == old(self).generation_spec() + 1,
            old(self).index_spec().contains_key(id.0) ==> final(self).rows_spec() == old(
                self,
            ).rows_spec().update(old(self).index_spec()[id.0] as int, v) && final(self).index_spec()
                == old(self).index_spec(),
            !old(self).index_spec().contains_key(id.0) ==> final(self).rows_spec() == old(
                self,
            ).rows_spec().push(v) && final(self).index_spec() == old(self).index_spec().insert(
                id.0,
                old(self).rows_spec().len() as usize,
            ),
    {
        let key = id.0;
        match self.id_to_row.get(&key) {
            Some(row) => {
                let r = *row;
                self.rows[r] = v;
            },
            None => {
                let r = self.rows.len();
                self.rows.push(v);
                self.id_to_row.insert(key, r);
            },
        }
        self.generation = self.generation + 1;
    }

    /// Removes a lesson's row: the last row moves into its place and the
    /// lesson that owned the last row is re-indexed; the generation is
    /// bumped. Returns whether the lesson was indexed (nothing changes
    /// otherwise).
    pub fn delete(&mut self, id: LessonId) -> (removed: bool)
        requires
            old(self).index_spec().contains_key(id.0) ==> old(self).index_spec()[id.0]
                < old(self).rows_spec().len() && old(self).generation_spec() < u64::MAX,
        ensures
            removed == old(self).index_spec().contains_key(id.0),
            !removed ==> final(self).rows_spec() == old(self).rows_spec() && final(self).index_spec()
                == old(self).index_spec() && final(self).generation_spec() == old(
                self,
            ).generation_spec(),
            removed ==> ({
                let row = old(self).index_spec()[id.0] as int;
                let last = old(self).rows_spec().len() - 1;
                let rest = old(self).index_spec().remove(id.0);
                &&& final(self).generation_spec() == old(self).generation_spec() + 1
                &&& final(self).rows_spec() == old(self).rows_spec().update(
                    row,
                    old(self).rows_spec().last(),
                ).drop_last()
                &&& (row == last || forall|k: u128| #[trigger] rest.contains_key(k) ==> rest[k]
                    != last) ==> final(self).index_spec() == rest
                &&& (row != last && exists|k: u128| #[trigger] rest.contains_key(k) && rest[k]
                    == last) ==> exists|k: u128|
                    #[trigger] rest.contains_key(k) && rest[k] == last && final(self).index_spec()
                        == rest.insert(k, row as usize)
            }),
    {
        let key = id.0;
        let row = match self.id_to_row.remove(&key) {
            Some(r) => r,
            None => return false,
        };
        let last = self.rows.len() - 1;
        if row != last {
            if let Some(mid) = key_for_row(&self.id_to_row, last) {
                self.id_to_row.insert(mid, row);
            }
        }
        self.rows.swap_remove(row);
        self.generation = self.generation + 1;
        true
    }

    /// For each row, a lesson indexed to it, if any (used to label search
    /// results). Indexed rows past the end are ignored.
    pub fn row_owners(&self) -> (owners: Vec<Option<LessonId>>)
        ensures
            owners@.len() == self.rows_spec().len(),
            forall|r: int|
                0 <= r < owners@.len() ==> match #[trigger] owners@[r] {
                    Some(id) => self.index_spec().contains_key(id.0) && self.index_spec()[id.0] == r,
                    None => forall|k: u128|
                        #[trigger] self.index_spec().contains_key(k) ==> self.index_spec()[k] != r,
                },
    {
        let n = self.rows.len();
        let mut owners: Vec<Option<LessonId>> = Vec::new();
        while owners.len() < n
            invariant
                owners@.len() <= n,
                forall|r: int| 0 <= r < owners@.len() ==> owners@[r] is None,
            decreases n - owners@.len(),
        {
            owners.push(None);
        }
        for (k, v) in it: self.id_to_row.iter()
            invariant
                n == self.rows_spec().len(),
                owners@.len() == n,
                it.seq() == vstd::std_specs::hash::spec_hash_map_iter(&self.id_to_row).remaining(),
                forall|r: int|
                    0 <= r < n ==> match #[trigger] owners@[r] {
                        Some(id) => self.index_spec().contains_key(id.0) && self.index_spec()[id.0]
                            == r,
                        None => forall|i: int| 0 <= i < it.index() ==> *it.seq()[i].1 != r,
                    },
        {
            proof {
                let i = it.index() as int;
                let kk = *it.seq()[i].0;
                assert(self.index_spec().contains_key(kk));
                assert(self.index_spec()[kk] == *it.seq()[i].1);
            }
            if *v < n {
                owners.set(*v, Some(LessonId(*k)));
            }
        }
        proof {
            let seq = vstd::std_specs::hash::spec_hash_map_iter(&self.id_to_row).remaining();
            assert forall|r: int| 0 <= r < n implies match #[trigger] owners@[r] {
                Some(id) => self.index_spec().contains_key(id.0) && self.index_spec()[id.0] == r,
                None => forall|k: u128|
                    #[trigger] self.index_spec().contains_key(k) ==> self.index_spec()[k] != r,
            } by {
                if owners@[r] is None {
                    assert forall|k: u128| #[trigger] self.index_spec().contains_key(k) implies self.index_spec()[k] != r by {
                        assert(seq.contains((&k, &self.index_spec()[k])));
                        let i = choose|i: int| 0 <= i < seq.len() && seq[i] == (&k, &self.index_spec()[k]);
                        assert(*seq[i].1 == self.index_spec()[k]);
                    }
                }
            }
        }
        owners
    }

    /// Whether every indexed row exists.
    pub fn index_consistent(&self) -> (b: bool)
        ensures
            b == self.consistent(),
    {
        let n = self.rows.len();
        for (k, v) in it: self.id_to_row.iter()
            invariant
                n == self.rows_spec().len(),
                forall|i: int| 0 <= i < it.index() ==> *(#[trigger] it.seq()[i]).1 < n,
                it.seq() == vstd::std_specs::hash::spec_hash_map_iter(&self.id_to_row).remaining(),
        {
            if *v >= n {
                proof {
                    let i = it.index() as int;
                    let kk = *it.seq()[i].0;
                    assert(self.index_spec().contains_key(kk));
                    assert(self.index_spec()[kk] == *it.seq()[i].1);
                }
                return false;
            }
        }
        true
    }
}

/// Writing a lesson's vector makes it what the store holds for that
/// lesson, leaves the others alone, and keeps the index well formed.
pub proof fn lemma_upsert_contents<T>(
    before: VectorRows<T>,
    after: VectorRows<T>,
    id: LessonId,
    v: T,
)
    requires
        before.well_formed(),
        before.index_spec().contains_key(id.0) ==> after.rows_spec() == before.rows_spec().update(
            before.index_spec()[id.0] as int,
            v,
        ) && after.index_spec() == before.index_spec(),
        !before.index_spec().contains_key(id.0) ==> after.rows_spec() == before.rows_spec().push(
            v,
        ) && after.index_spec() == before.index_spec().insert(
            id.0,
            before.rows_spec().len() as usize,
        ),
        before.rows_spec().len() < usize::MAX,
    ensures
        after.well_formed(),
        after.contents() == before.contents().insert(id.0, v),
{
    assert(after.contents() =~= before.contents().insert(id.0, v));
}

/// Deleting a lesson removes exactly that lesson from what the store
/// holds and keeps the index well formed.
pub proof fn lemma_delete_contents<T>(before: VectorRows<T>, after: VectorRows<T>, id: LessonId)
    requires
        before.well_formed(),
        before.index_spec().contains_key(id.0),
        ({
            let row = before.index_spec()[id.0] as int;
            let last = before.rows_spec().len() - 1;
            let rest = before.index_spec().remove(id.0);
            &&& after.rows_spec() == before.rows_spec().update(row, before.rows_spec().last()).drop_last()
            &&& (row == last || forall|k: u128| #[trigger] rest.contains_key(k) ==> rest[k]
                != last) ==> after.index_spec() == rest
            &&& (row != last && exists|k: u128| #[trigger] rest.contains_key(k) && rest[k] == last)
                ==> exists|k: u128|
                #[trigger] rest.contains_key(k) && rest[k] == last && after.index_spec()
                    == rest.insert(k, row as usize)
        }),
    ensures
        after.well_formed(),
        after.contents() == before.contents().remove(id.0),
{
    let row = before.index_spec()[id.0] as int;
    let last = before.rows_spec().len() - 1;
    let rest = before.index_spec().remove(id.0);
    let old_rows = before.rows_spec();
    if row != last && exists|k: u128| #[trigger] rest.contains_key(k) && rest[k] == last {
        let k = choose|k: u128|
            #[trigger] rest.contains_key(k) && rest[k] == last && after.index_spec() == rest.insert(
                k,
                row as usize,
            );
        assert forall|x: u128| #[trigger] rest.contains_key(x) && x != k implies rest[x] != last
            && rest[x] != row by {
            assert(before.index_spec().contains_key(x));
            assert(before.index_spec().contains_key(k));
        }
        assert(after.contents() =~= before.contents().remove(id.0));
    } else {
        assert forall|x: u128| #[trigger] rest.contains_key(x) implies rest[x] != last by {
            if row == last {
                assert(before.index_spec().contains_key(x));
            }
        }
        assert(after.contents() =~= before.contents().remove(id.0));
    }
}

} // verus!
