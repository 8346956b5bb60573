//! The keyed store: the latest blob of each (item, world) pair, in memory.
//!
//! A blob is stored and handed out as a whole copy. Writing a pair again
//! replaces what was there; nothing is ever merged or deleted.

use crate::listings::{views, Listing, ListingView, MAX_NUM_LISTINGS_PER_ITEM};
use crate::stored_data;
use crate::stored_data::{make_stored_data, read_stored_data, stored_snapshot};
use std::collections::HashMap;
use vstd::prelude::*;
use vstd::slice::slice_to_vec;

verus! {

broadcast use vstd::std_specs::hash::group_hash_axioms;

/// What the store reports.
#[derive(Debug, PartialEq, Eq, Clone, Copy, Structural)]
pub enum Error {
    /// Nothing was ever written for the pair.
    ItemNotFoundError,
    /// What is written for the pair is no snapshot.
    CorruptDataError,
}

/// What a store holds: the blob of each pair that was written, the item
/// first and the world second.
pub type Contents = Map<(u16, u16), Seq<u8>>;

/// The blob of a pair, if one was written.
pub open spec fn stored(contents: Contents, item: u16, world: u16) -> Option<Seq<u8>> {
    if contents.contains_key((item, world)) {
        Some(contents[(item, world)])
    } else {
        None
    }
}

/// Whether any world of `item` was written.
pub open spec fn known_item(contents: Contents, item: u16) -> bool {
    exists|world: u16| contents.contains_key((item, world))
}

/// The contents after `blob` was written for a pair.
pub open spec fn written(contents: Contents, item: u16, world: u16, blob: Seq<u8>) -> Contents {
    contents.insert((item, world), blob)
}

/// Store semantics: a pair that was written reads back as the exact bytes
/// written last, and writing it leaves every other pair as it was.
pub proof fn lemma_get_after_put(
    contents: Contents,
    item: u16,
    world: u16,
    blob: Seq<u8>,
    other_item: u16,
    other_world: u16,
)
    ensures
        stored(written(contents, item, world, blob), item, world) == Some(blob),
        (other_item, other_world) != (item, world) ==> stored(
            written(contents, item, world, blob),
            other_item,
            other_world,
        ) == stored(contents, other_item, other_world),
{
}

/// Store semantics: an empty store has no pair and knows no item.
pub proof fn lemma_never_written(item: u16, world: u16)
    ensures
        stored(Map::empty(), item, world) is None,
        !known_item(Map::empty(), item),
{
}

/// Store semantics: an item is known exactly when one of its worlds is
/// stored; writing a pair makes its item known and changes no other item.
pub proof fn lemma_known_item(contents: Contents, item: u16, world: u16, blob: Seq<u8>, other: u16)
    ensures
        known_item(contents, other) <==> exists|w: u16| stored(contents, other, w) is Some,
        known_item(written(contents, item, world, blob), item),
        other != item ==> known_item(written(contents, item, world, blob), other) == known_item(
            contents,
            other,
        ),
{
    let after = written(contents, item, world, blob);
    assert(after.contains_key((item, world)));
    if known_item(contents, other) {
        let w = choose|w: u16| contents.contains_key((other, w));
        assert(stored(contents, other, w) is Some);
        assert(after.contains_key((other, w)));
    }
    if exists|w: u16| stored(contents, other, w) is Some {
        let w = choose|w: u16| stored(contents, other, w) is Some;
        assert(contents.contains_key((other, w)));
    }
    if other != item && known_item(after, other) {
        let w = choose|w: u16| after.contains_key((other, w));
        assert(contents.contains_key((other, w)));
    }
}

/// A store in memory: one table per item, which holds the blob of each of
/// the item's worlds.
pub struct Database {
    items: HashMap<u16, HashMap<u16, Vec<u8>>>,
}

impl View for Database {
    type V = Contents;

    closed spec fn view(&self) -> Contents {
        Map::new(
            |pair: (u16, u16)|
                self.items@.contains_key(pair.0) && self.items@[pair.0]@.contains_key(pair.1),
            |pair: (u16, u16)| self.items@[pair.0]@[pair.1]@,
        )
    }
}

impl Database {
    /// No item has an empty table: an item is listed from its first world on.
    #[verifier::type_invariant]
    spec fn every_item_has_a_world(self) -> bool {
        forall|item: u16| #[trigger]
            self.items@.contains_key(item) ==> exists|world: u16| #[trigger]
                self.items@[item]@.contains_key(world)
    }

    /// An empty store.
    pub fn new() -> (db: Database)
        ensures
            db@ == Map::<(u16, u16), Seq<u8>>::empty(),
    {
        let db = Database { items: HashMap::new() };
        assert(db@ =~= Map::<(u16, u16), Seq<u8>>::empty());
        db
    }

    /// Writes `blob` for a pair, in place of what was written before.
    pub fn put(&mut self, item: u16, world: u16, blob: Vec<u8>)
        ensures
            final(self)@ == written(old(self)@, item, world, blob@),
    {
        proof {
            use_type_invariant(&*self);
        }
        let mut items = HashMap::new();
        std::mem::swap(&mut self.items, &mut items);
        let mut worlds = match items.remove(&item) {
            Some(worlds) => worlds,
            None => HashMap::new(),
        };
        worlds.insert(world, blob);
        assert(worlds@.contains_key(world));
        items.insert(item, worlds);
        assert forall|i: u16| #[trigger] items@.contains_key(i) implies exists|w: u16| #[trigger]
            items@[i]@.contains_key(w) by {
            if i == item {
                assert(items@[i]@.contains_key(world));
            } else {
                assert(old(self).items@.contains_key(i));
                let w = choose|w: u16| #[trigger] old(self).items@[i]@.contains_key(w);
                assert(items@[i]@.contains_key(w));
            }
        }
        std::mem::swap(&mut self.items, &mut items);
        assert(final(self)@ =~= written(old(self)@, item, world, blob@));
    }

    /// A copy of the blob of a pair; `ItemNotFoundError` where none was
    /// written.
    pub fn get(&self, item: u16, world: u16) -> (result: Result<Vec<u8>, Error>)
        ensures
            match result {
                Ok(blob) => stored(self@, item, world) == Some(blob@),
                Err(e) => e == Error::ItemNotFoundError && stored(self@, item, world) is None,
            },
    {
        match self.items.get(&item) {
            Some(worlds) => match worlds.get(&world) {
                Some(blob) => Ok(slice_to_vec(blob.as_slice())),
                None => Err(Error::ItemNotFoundError),
            },
            None => Err(Error::ItemNotFoundError),
        }
    }

    /// Whether any world of `item` was written.
    pub fn has_item(&self, item: u16) -> (known: bool)
        ensures
            known == known_item(self@, item),
    {
        let known = self.items.contains_key(&item);
        proof {
            use_type_invariant(self);
            if known {
                let w = choose|w: u16| #[trigger] self.items@[item]@.contains_key(w);
                assert(self@.contains_key((item, w)));
            }
            if known_item(self@, item) {
                let w = choose|w: u16| self@.contains_key((item, w));
                assert(self.items@.contains_key(item));
            }
        }
        known
    }
}

/// Whether `after` is `before` with the blob of one pair replaced by a blob
/// that holds the snapshot `(now, records)`, and nothing else changed.
pub open spec fn snapshot_replaced(
    before: Contents,
    after: Contents,
    item: u16,
    world: u16,
    now: i64,
    records: Seq<ListingView>,
) -> bool {
    &&& after.contains_key((item, world))
    &&& after == written(before, item, world, after[(item, world)])
    &&& stored_snapshot(after[(item, world)]) == Some((now, records))
}

/// Replaces the snapshot of a pair by `new_listings` as of `now`. A set of
/// more than [`MAX_NUM_LISTINGS_PER_ITEM`] listings is refused, and the store
/// is then left as it was; every other set is stored.
pub fn update_listings(
    db: &mut Database,
    world_id: u16,
    item_id: u16,
    new_listings: &[Listing],
    now: i64,
) -> (result: Result<(), stored_data::Error>)
    ensures
        match result {
            Ok(()) => {
                &&& new_listings@.len() <= MAX_NUM_LISTINGS_PER_ITEM
                &&& snapshot_replaced(
                    old(db)@,
                    final(db)@,
                    item_id,
                    world_id,
                    now,
                    views(new_listings@),
                )
            },
            Err(e) => {
                &&& final(db)@ == old(db)@
                &&& e == stored_data::Error::TooManyListings
                &&& new_listings@.len() > MAX_NUM_LISTINGS_PER_ITEM
            },
        },
{
    match make_stored_data(now, new_listings) {
        Ok(blob) => {
            db.put(item_id, world_id, blob);
            Ok(())
        },
        Err(e) => Err(e),
    }
}

/// The snapshot of a pair: the instant of its last update and its listings,
/// whenever the pair holds a blob with a snapshot. `ItemNotFoundError` where
/// nothing was written for the pair; `CorruptDataError` where what was
/// written holds no snapshot.
pub fn get_listings(db: &Database, world_id: u16, item_id: u16) -> (result: Result<
    (i64, Vec<Listing>),
    Error,
>)
    ensures
        match stored(db@, item_id, world_id) {
            Some(blob) => match stored_snapshot(blob) {
                Some((last_updated, listings)) => {
                    &&& result matches Ok((instant, back))
                    &&& instant == last_updated
                    &&& views(back@) == listings
                },
                None => result == Err::<(i64, Vec<Listing>), Error>(Error::CorruptDataError),
            },
            None => result == Err::<(i64, Vec<Listing>), Error>(Error::ItemNotFoundError),
        },
{
    match db.get(item_id, world_id) {
        Ok(blob) => match read_stored_data(blob.as_slice()) {
            Ok(snapshot) => Ok(snapshot),
            Err(_) => Err(Error::CorruptDataError),
        },
        Err(e) => Err(e),
    }
}

/// Reading after an update: a pair whose snapshot was replaced reads back
/// as that snapshot.
pub proof fn lemma_get_after_update(
    before: Contents,
    after: Contents,
    item: u16,
    world: u16,
    now: i64,
    records: Seq<ListingView>,
)
    requires
        snapshot_replaced(before, after, item, world, now, records),
    ensures
        stored(after, item, world) matches Some(blob) && stored_snapshot(blob) == Some(
            (now, records),
        ),
{
}

} // verus!
