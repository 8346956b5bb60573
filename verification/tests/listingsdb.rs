use ffmarketdb::listings::{Listing, ListingFlags};
use ffmarketdb::listingsdb::{get_listings, update_listings, Database, Error};
use ffmarketdb::stored_data;

#[test]
fn get_after_put_returns_the_bytes_written() {
    let mut db = Database::new();
    db.put(5333, 4, vec![1, 2, 3]);
    assert_eq!(db.get(5333, 4), Ok(vec![1, 2, 3]));
    db.put(5333, 4, vec![]);
    assert_eq!(db.get(5333, 4), Ok(vec![]));
}

#[test]
fn get_on_a_pair_never_written_is_not_found() {
    let mut db = Database::new();
    assert_eq!(db.get(0, 0), Err(Error::ItemNotFoundError));
    db.put(1, 2, vec![9]);
    assert_eq!(db.get(2, 1), Err(Error::ItemNotFoundError));
    assert_eq!(db.get(1, 3), Err(Error::ItemNotFoundError));
    assert_eq!(db.get(0, 65538u32 as u16), Err(Error::ItemNotFoundError));
}

#[test]
fn pairs_do_not_disturb_each_other() {
    let mut db = Database::new();
    db.put(0, 1, vec![1]);
    db.put(1, 0, vec![2]);
    db.put(0xffff, 0xffff, vec![3]);
    db.put(0, 0, vec![4]);
    db.put(0, 1, vec![5]);
    assert_eq!(db.get(0, 1), Ok(vec![5]));
    assert_eq!(db.get(1, 0), Ok(vec![2]));
    assert_eq!(db.get(0xffff, 0xffff), Ok(vec![3]));
    assert_eq!(db.get(0, 0), Ok(vec![4]));
}

#[test]
fn item_is_known_once_a_world_is_stored() {
    let mut db = Database::new();
    assert!(!db.has_item(7));
    db.put(7, 100, vec![]);
    assert!(db.has_item(7));
    assert!(!db.has_item(100));
    assert!(!db.has_item(8));
    db.put(7, 101, vec![1]);
    assert!(db.has_item(7));
}

fn listing(seed: u8) -> Listing {
    Listing {
        flags: ListingFlags::new(true, false, seed % 2 == 0),
        city: seed,
        dye_id: 1,
        materia_ids: [seed as u16; 5],
        amount: 3,
        price_per_unit: 1000,
        retainer_name: [b'a' + seed % 26; 32],
    }
}

#[test]
fn updated_listings_are_got_with_their_instant() {
    let mut db = Database::new();
    let listings = vec![listing(1), listing(2)];
    assert_eq!(update_listings(&mut db, 4, 5333, &listings, 1_700_000_000), Ok(()));
    assert_eq!(get_listings(&db, 4, 5333), Ok((1_700_000_000, listings)));
    assert_eq!(get_listings(&db, 5333, 4), Err(Error::ItemNotFoundError));
    assert!(db.has_item(5333));
    assert!(!db.has_item(4));
}

#[test]
fn update_replaces_the_whole_snapshot() {
    let mut db = Database::new();
    update_listings(&mut db, 1, 2, &[listing(1), listing(2), listing(3)], 10).unwrap();
    update_listings(&mut db, 1, 2, &[listing(9)], 11).unwrap();
    assert_eq!(get_listings(&db, 1, 2), Ok((11, vec![listing(9)])));
    update_listings(&mut db, 1, 2, &[], 12).unwrap();
    assert_eq!(get_listings(&db, 1, 2), Ok((12, vec![])));
}

#[test]
fn refused_update_leaves_the_snapshot() {
    let mut db = Database::new();
    update_listings(&mut db, 1, 2, &[listing(1)], 10).unwrap();
    let many: Vec<Listing> = (0..101).map(listing).collect();
    assert_eq!(
        update_listings(&mut db, 1, 2, &many, 11),
        Err(stored_data::Error::TooManyListings)
    );
    assert_eq!(get_listings(&db, 1, 2), Ok((10, vec![listing(1)])));
}

#[test]
fn blob_that_is_no_snapshot_is_corrupt_data() {
    let mut db = Database::new();
    db.put(2, 1, vec![1, 2, 3]);
    assert_eq!(get_listings(&db, 1, 2), Err(Error::CorruptDataError));
}
