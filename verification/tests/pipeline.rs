use ffmarketdb::api_server::{get_item, Response};
use ffmarketdb::importer::{Action, Config, Event, Pipeline};
use ffmarketdb::listingsdb::Database;
use ffmarketdb::stored_data::read_stored_data;
use ffmarketdb::universalis;
use ffmarketdb::universalis::{control_message, Error, Frame, Message, Sale};

fn listing(name: &str) -> universalis::Listing {
    universalis::Listing {
        is_hq: false,
        is_crafted: true,
        is_on_mannequin: false,
        city: 1,
        retainer_name: name.to_string(),
        dye_id: 0,
        materia: vec![],
        amount: 2,
        price_per_unit: 10,
        total_price: 20,
        creation_time: 0,
        seller_id: String::new(),
    }
}

fn added(item: u16, world: u16, names: &[&str]) -> Event {
    Event::Frame(Frame::Payload(Message::ListingsAdd {
        world,
        item,
        listings: names.iter().map(|name| listing(name)).collect(),
    }))
}

fn subscribed() -> Pipeline {
    let mut pipeline = Pipeline::new(Config::default());
    assert_eq!(pipeline.step(Event::Start, 0), Action::Connect);
    assert!(matches!(pipeline.step(Event::Connected, 0), Action::Subscribe { .. }));
    assert_eq!(pipeline.step(Event::Sent, 0), Action::Read);
    pipeline
}

/// Performs a store action on `db` and says what the pipeline is to be told.
fn perform(db: &mut Database, action: Action) -> Event {
    match action {
        Action::Store { item, world, blob } => {
            db.put(item, world, blob);
            Event::Stored
        }
        other => panic!("{:?}", other),
    }
}

#[test]
fn default_waits() {
    assert_eq!(
        Config::default(),
        Config { connect_backoff_millis: 5000, reconnect_delay_millis: 500 }
    );
}

#[test]
fn pipeline_connects_subscribes_and_reads() {
    let mut pipeline = Pipeline::new(Config::default());
    assert!(!pipeline.is_subscribed());
    assert_eq!(pipeline.step(Event::Start, 0), Action::Connect);
    assert_eq!(
        pipeline.step(Event::Connected, 0),
        Action::Subscribe { request: control_message("subscribe", "listings/add").unwrap() }
    );
    assert!(pipeline.is_subscribed());
    assert_eq!(pipeline.step(Event::Sent, 0), Action::Read);
}

#[test]
fn failed_connect_backs_off_and_tries_again() {
    let config = Config { connect_backoff_millis: 1234, reconnect_delay_millis: 56 };
    let mut pipeline = Pipeline::new(config);
    for error in [Error::NameResolveFailed, Error::ConnectFailed, Error::WebsocketHandshakeFailed] {
        assert_eq!(pipeline.step(Event::Start, 0), Action::Connect);
        assert_eq!(pipeline.step(Event::ConnectFailed(error), 0), Action::Wait { millis: 1234 });
        assert_eq!(pipeline.step(Event::Waited, 0), Action::Connect);
        assert!(!pipeline.is_subscribed());
    }
}

#[test]
fn added_listings_are_stored_with_the_instant_of_the_step() {
    let mut pipeline = subscribed();
    match pipeline.step(added(5333, 4, &["a", "b"]), 1_700_000_000) {
        Action::Store { item, world, blob } => {
            assert_eq!((item, world), (5333, 4));
            let (instant, listings) = read_stored_data(&blob).unwrap();
            assert_eq!(instant, 1_700_000_000);
            assert_eq!(listings.len(), 2);
            assert_eq!(&listings[1].retainer_name[..2], b"b\0");
        }
        other => panic!("{:?}", other),
    }
    assert_eq!(pipeline.step(Event::Stored, 0), Action::Read);
}

#[test]
fn other_events_and_noise_are_read_over() {
    let mut pipeline = subscribed();
    let removed = Message::ListingsRemove { world: 1, item: 2, listings: vec![listing("a")] };
    let sold = Message::SalesAdd {
        world: 1,
        item: 2,
        sales: vec![Sale {
            is_hq: false,
            is_on_mannequin: false,
            amount: 1,
            price_per_unit: 1,
            total_price: 1,
            time_of_sale: 1,
            buyer: String::new(),
        }],
    };
    assert_eq!(pipeline.step(Event::Frame(Frame::Payload(removed)), 0), Action::Read);
    assert_eq!(pipeline.step(Event::Frame(Frame::Payload(sold)), 0), Action::Read);
    assert_eq!(pipeline.step(Event::Frame(Frame::Noise), 0), Action::Read);
    assert_eq!(pipeline.step(Event::Frame(Frame::Control), 0), Action::Read);
    assert!(pipeline.is_subscribed());
}

#[test]
fn stall_is_answered_with_a_keepalive() {
    let mut pipeline = subscribed();
    assert_eq!(pipeline.step(Event::Frame(Frame::Stalled), 0), Action::Keepalive);
    assert_eq!(pipeline.step(Event::Sent, 0), Action::Read);
    assert!(pipeline.is_subscribed());
}

#[test]
fn failed_store_write_does_not_stop_the_reading() {
    let mut pipeline = subscribed();
    assert!(matches!(pipeline.step(added(1, 1, &["a"]), 0), Action::Store { .. }));
    assert_eq!(pipeline.step(Event::StoreFailed, 0), Action::Read);
    assert!(pipeline.is_subscribed());
}

#[test]
fn oversized_event_is_dropped_and_reading_goes_on() {
    let mut pipeline = subscribed();
    let names = vec!["a"; 101];
    assert_eq!(pipeline.step(added(1, 1, &names), 0), Action::Read);
    assert!(pipeline.is_subscribed());
}

#[test]
fn events_without_a_connection_lead_to_a_connect() {
    let mut pipeline = Pipeline::new(Config::default());
    assert_eq!(pipeline.step(added(1, 1, &["a"]), 0), Action::Connect);
    assert_eq!(pipeline.step(Event::Sent, 0), Action::Connect);
    assert_eq!(pipeline.step(Event::Stored, 0), Action::Connect);
    assert_eq!(pipeline.step(Event::StoreFailed, 0), Action::Connect);
    assert_eq!(pipeline.step(Event::Frame(Frame::Stalled), 0), Action::Connect);
    assert!(!pipeline.is_subscribed());
}

#[test]
fn lost_connection_is_made_again_and_stored_keys_stay() {
    let mut db = Database::new();
    let mut pipeline = subscribed();

    let action = pipeline.step(added(5333, 4, &["before"]), 100);
    let event = perform(&mut db, action);
    assert_eq!(pipeline.step(event, 100), Action::Read);

    assert_eq!(pipeline.step(Event::Frame(Frame::Broken), 101), Action::Wait { millis: 500 });
    assert!(!pipeline.is_subscribed());
    assert_eq!(pipeline.step(Event::Waited, 102), Action::Connect);
    assert_eq!(
        pipeline.step(Event::ConnectFailed(Error::ConnectFailed), 103),
        Action::Wait { millis: 5000 }
    );
    assert_eq!(pipeline.step(Event::Waited, 104), Action::Connect);
    assert_eq!(
        pipeline.step(Event::Connected, 105),
        Action::Subscribe { request: control_message("subscribe", "listings/add").unwrap() }
    );
    assert_eq!(pipeline.step(Event::Sent, 105), Action::Read);

    let action = pipeline.step(added(5334, 4, &["after"]), 200);
    let event = perform(&mut db, action);
    assert_eq!(pipeline.step(event, 200), Action::Read);

    match get_item(&db, 5333, 4) {
        Response::Found(response) => {
            assert_eq!(response.last_updated, 100);
            assert_eq!(response.listings[0].retainer_name, "before");
        }
        other => panic!("{:?}", other),
    }
    match get_item(&db, 5334, 4) {
        Response::Found(response) => {
            assert_eq!(response.last_updated, 200);
            assert_eq!(response.listings[0].retainer_name, "after");
        }
        other => panic!("{:?}", other),
    }
}
