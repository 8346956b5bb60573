use ffmarketdb::importer::{
    convert_listings, convert_to_listingsdb_listing, ingest, pack_materia, prepare_update,
    Outcome, Update,
};
use ffmarketdb::listings::{Listing, ListingFlags};
use ffmarketdb::listingsdb::Database;
use ffmarketdb::stored_data::{read_stored_data, Error};
use ffmarketdb::universalis;
use ffmarketdb::universalis::{MateriaInfo, Message, Sale};

fn upstream(name: &str, materia: &[(u8, u8)]) -> universalis::Listing {
    universalis::Listing {
        is_hq: true,
        is_crafted: false,
        is_on_mannequin: true,
        city: 3,
        retainer_name: name.to_string(),
        dye_id: 11,
        materia: materia
            .iter()
            .map(|&(slot_index, materia_index)| MateriaInfo { slot_index, materia_index })
            .collect(),
        amount: 99,
        price_per_unit: 123_456,
        total_price: 99 * 123_456,
        creation_time: 1_700_000_000,
        seller_id: "seller".to_string(),
    }
}

fn name_of(text: &[u8]) -> [u8; 32] {
    let mut buffer = [0u8; 32];
    buffer[..text.len()].copy_from_slice(text);
    buffer
}

#[test]
fn fields_are_carried_over() {
    let record = convert_to_listingsdb_listing(&upstream("Retainer", &[(1, 2)]));
    assert_eq!(
        record,
        Listing {
            flags: ListingFlags::from_bits_retain(0b101),
            city: 3,
            dye_id: 11,
            materia_ids: [0x0201, 0, 0, 0, 0],
            amount: 99,
            price_per_unit: 123_456,
            retainer_name: name_of(b"Retainer"),
        }
    );
    assert_eq!(Listing::from(&upstream("Retainer", &[(1, 2)])), record);
}

#[test]
fn each_attribute_has_its_own_flag() {
    for bits in 0..8u8 {
        let mut listing = upstream("x", &[]);
        listing.is_hq = bits & 1 != 0;
        listing.is_crafted = bits & 2 != 0;
        listing.is_on_mannequin = bits & 4 != 0;
        assert_eq!(convert_to_listingsdb_listing(&listing).flags.bits(), bits);
    }
}

#[test]
fn materia_are_packed_tier_high_socket_low() {
    assert_eq!(pack_materia(&MateriaInfo { slot_index: 0x34, materia_index: 0x12 }), 0x1234);
    assert_eq!(pack_materia(&MateriaInfo { slot_index: 0xff, materia_index: 0 }), 0x00ff);
    assert_eq!(pack_materia(&MateriaInfo { slot_index: 0, materia_index: 0xff }), 0xff00);
}

#[test]
fn materia_fill_the_slots_in_order_and_zeros_follow() {
    let all = [(1u8, 10u8), (2, 20), (3, 30), (4, 40), (5, 50), (6, 60), (7, 70)];
    for k in 0..=5usize {
        let record = convert_to_listingsdb_listing(&upstream("m", &all[..k]));
        for slot in 0..5 {
            let expected = if slot < k {
                (all[slot].1 as u16) << 8 | all[slot].0 as u16
            } else {
                0
            };
            assert_eq!(record.materia_ids[slot], expected, "k = {}, slot = {}", k, slot);
        }
    }
}

#[test]
fn materia_beyond_the_fifth_are_dropped() {
    let all = [(1u8, 10u8), (2, 20), (3, 30), (4, 40), (5, 50), (6, 60), (7, 70)];
    let record = convert_to_listingsdb_listing(&upstream("m", &all));
    assert_eq!(record.materia_ids, [0x0a01, 0x1402, 0x1e03, 0x2804, 0x3205]);
}

#[test]
fn short_name_is_followed_by_zeros() {
    assert_eq!(convert_to_listingsdb_listing(&upstream("", &[])).retainer_name, [0u8; 32]);
    assert_eq!(
        convert_to_listingsdb_listing(&upstream("Test", &[])).retainer_name,
        name_of(b"Test")
    );
}

#[test]
fn name_of_the_width_fills_the_buffer() {
    let name = "abcdefghijklmnopqrstuvwxyz012345";
    assert_eq!(name.len(), 32);
    assert_eq!(
        convert_to_listingsdb_listing(&upstream(name, &[])).retainer_name,
        name_of(name.as_bytes())
    );
}

#[test]
fn long_name_is_cut_at_the_width() {
    let name = "abcdefghijklmnopqrstuvwxyz0123456789";
    assert_eq!(
        convert_to_listingsdb_listing(&upstream(name, &[])).retainer_name,
        name_of(&name.as_bytes()[..32])
    );
    let wide = "ééééééééééééééééé";
    assert_eq!(wide.len(), 34);
    assert_eq!(
        convert_to_listingsdb_listing(&upstream(wide, &[])).retainer_name,
        name_of(&wide.as_bytes()[..32])
    );
}

#[test]
fn every_listing_is_converted_in_order() {
    let listings = vec![upstream("a", &[]), upstream("b", &[(1, 1)]), upstream("c", &[])];
    let records = convert_listings(&listings);
    assert_eq!(records.len(), 3);
    for (record, listing) in records.iter().zip(&listings) {
        assert_eq!(*record, convert_to_listingsdb_listing(listing));
    }
    assert_eq!(convert_listings(&[]), vec![]);
}

#[test]
fn added_listings_become_a_blob_for_their_pair() {
    let listings = vec![upstream("a", &[]), upstream("b", &[(1, 1)])];
    let message = Message::ListingsAdd { world: 4, item: 5333, listings: listings.clone() };
    match prepare_update(&message, 1_700_000_123) {
        Update::Store { item, world, blob } => {
            assert_eq!((item, world), (5333, 4));
            assert_eq!(
                read_stored_data(&blob),
                Ok((1_700_000_123, convert_listings(&listings)))
            );
        }
        other => panic!("{:?}", other),
    }
}

#[test]
fn other_events_are_ignored() {
    let removed = Message::ListingsRemove { world: 4, item: 5333, listings: vec![upstream("a", &[])] };
    assert_eq!(prepare_update(&removed, 1), Update::Ignored);
    let sold = Message::SalesAdd {
        world: 4,
        item: 5333,
        sales: vec![Sale {
            is_hq: true,
            is_on_mannequin: false,
            amount: 1,
            price_per_unit: 2,
            total_price: 2,
            time_of_sale: 3,
            buyer: "b".to_string(),
        }],
    };
    assert_eq!(prepare_update(&sold, 1), Update::Ignored);
    let mut db = Database::new();
    db.put(5333, 4, vec![1]);
    assert_eq!(ingest(&mut db, &removed, 1), Outcome::Discarded);
    assert_eq!(ingest(&mut db, &sold, 1), Outcome::Discarded);
    assert_eq!(db.get(5333, 4), Ok(vec![1]));
}

#[test]
fn oversized_event_is_dropped_and_the_store_is_untouched() {
    let listings: Vec<universalis::Listing> = (0..101).map(|_| upstream("a", &[])).collect();
    let message = Message::ListingsAdd { world: 1, item: 2, listings };
    assert_eq!(prepare_update(&message, 1), Update::Rejected(Error::TooManyListings));
    let mut db = Database::new();
    db.put(2, 1, vec![7]);
    assert_eq!(ingest(&mut db, &message, 1), Outcome::Dropped(Error::TooManyListings));
    assert_eq!(db.get(2, 1), Ok(vec![7]));
}

#[test]
fn replay_leaves_one_snapshot() {
    let message = Message::ListingsAdd {
        world: 4,
        item: 5333,
        listings: vec![upstream("a", &[]), upstream("b", &[])],
    };
    let mut once = Database::new();
    once.put(1, 1, vec![1]);
    assert_eq!(ingest(&mut once, &message, 50), Outcome::Stored);
    let mut twice = Database::new();
    twice.put(1, 1, vec![1]);
    assert_eq!(ingest(&mut twice, &message, 50), Outcome::Stored);
    assert_eq!(ingest(&mut twice, &message, 50), Outcome::Stored);
    let snapshot = read_stored_data(&twice.get(5333, 4).unwrap()).unwrap();
    assert_eq!(snapshot, read_stored_data(&once.get(5333, 4).unwrap()).unwrap());
    assert_eq!(snapshot.1.len(), 2);
    assert_eq!(twice.get(1, 1), Ok(vec![1]));
}

#[test]
fn later_snapshot_replaces_the_earlier_one() {
    let mut db = Database::new();
    let first = Message::ListingsAdd {
        world: 4,
        item: 5333,
        listings: vec![upstream("a", &[]), upstream("b", &[]), upstream("c", &[])],
    };
    let second = Message::ListingsAdd { world: 4, item: 5333, listings: vec![upstream("z", &[])] };
    assert_eq!(ingest(&mut db, &first, 10), Outcome::Stored);
    assert_eq!(ingest(&mut db, &second, 20), Outcome::Stored);
    assert_eq!(
        read_stored_data(&db.get(5333, 4).unwrap()),
        Ok((20, vec![convert_to_listingsdb_listing(&upstream("z", &[]))]))
    );
}
