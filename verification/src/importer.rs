//! Ingestion: from events of the feed to stored snapshots.

use crate::listings::{
    flag_bits, lemma_view_injective, name_buffer, views, Listing, ListingFlags, ListingView,
    MAX_NUM_LISTINGS_PER_ITEM, MAX_NUM_MATERIA_PER_ITEM,
    MAX_RETAINER_NAME_LENGTH,
};
use crate::listingsdb::{snapshot_replaced, stored, written, Contents, Database};
use crate::stored_data;
use crate::stored_data::{make_stored_data, stored_snapshot};
use crate::universalis;
use crate::universalis::{
    control_document, lemma_utf8_len, Connection, ConnectionState, Frame, MateriaInfo, Message,
    ReadStep, LISTINGS_ADD_CHANNEL,
};
use vstd::prelude::*;
use vstd::utf8::encode_utf8;

verus! {

/// One materia in one slot of a record: the tier in the high byte, the socket
/// in the low byte.
pub open spec fn packed_materia(materia: MateriaInfo) -> u16 {
    (materia.materia_index as u16) << 8 | (materia.slot_index as u16)
}

/// The five slots of a record: the first five materia in their order, then
/// zeros. Materia beyond the fifth are dropped.
pub open spec fn materia_slots(materia: Seq<MateriaInfo>) -> Seq<u16> {
    Seq::new(
        5,
        |i: int|
            if i < materia.len() {
                packed_materia(materia[i])
            } else {
                0u16
            },
    )
}

/// The record of a listing of the feed.
pub open spec fn record_of(listing: universalis::Listing) -> ListingView {
    ListingView {
        flags: flag_bits(listing.is_hq, listing.is_crafted, listing.is_on_mannequin),
        city: listing.city,
        dye_id: listing.dye_id,
        materia_ids: materia_slots(listing.materia@),
        amount: listing.amount,
        price_per_unit: listing.price_per_unit,
        retainer_name: name_buffer(encode_utf8(listing.retainer_name@)),
    }
}

/// Packs one materia into a slot.
pub fn pack_materia(materia: &MateriaInfo) -> (slot: u16)
    ensures
        slot == packed_materia(*materia),
{
    (materia.materia_index as u16) << 8 | (materia.slot_index as u16)
}

/// Converts a listing of the feed into a record: the three attributes become
/// flag bits, the materia fill the slots in their order, and the name is
/// copied to the left of the buffer and cut at its width.
pub fn convert_to_listingsdb_listing(listing: &universalis::Listing) -> (record: Listing)
    ensures
        record@ == record_of(*listing),
{
    let name = listing.retainer_name.as_str().as_bytes();
    let name_length = if name.len() < MAX_RETAINER_NAME_LENGTH {
        name.len()
    } else {
        MAX_RETAINER_NAME_LENGTH
    };
    let mut retainer_name = [0u8;32];
    for k in 0..name_length
        invariant
            name_length <= 32,
            name_length <= name@.len(),
            forall|j: int| 0 <= j < k ==> retainer_name@[j] == name@[j],
            forall|j: int| k <= j < 32 ==> retainer_name@[j] == 0,
    {
        retainer_name[k] = name[k];
    }
    let num_materia = if listing.materia.len() < MAX_NUM_MATERIA_PER_ITEM {
        listing.materia.len()
    } else {
        MAX_NUM_MATERIA_PER_ITEM
    };
    let mut materia_ids = [0u16;5];
    for i in 0..num_materia
        invariant
            num_materia <= 5,
            num_materia <= listing.materia@.len(),
            forall|j: int| 0 <= j < i ==> materia_ids@[j] == packed_materia(listing.materia@[j]),
            forall|j: int| i <= j < 5 ==> materia_ids@[j] == 0,
    {
        materia_ids[i] = pack_materia(&listing.materia[i]);
    }
    let record = Listing {
        flags: ListingFlags::new(listing.is_hq, listing.is_crafted, listing.is_on_mannequin),
        city: listing.city,
        dye_id: listing.dye_id,
        materia_ids,
        amount: listing.amount,
        price_per_unit: listing.price_per_unit,
        retainer_name,
    };
    proof {
        let wanted = record_of(*listing);
        assert(record@.materia_ids =~= wanted.materia_ids);
        assert(record@.retainer_name =~= wanted.retainer_name);
    }
    record
}

/// The listing whose view is `v`; meant for the views of records.
pub open spec fn listing_of(v: ListingView) -> Listing {
    choose|listing: Listing| listing@ == v
}

impl From<&universalis::Listing> for Listing {
    /// The same conversion as [`convert_to_listingsdb_listing`].
    fn from(listing: &universalis::Listing) -> (record: Listing) {
        let record = convert_to_listingsdb_listing(listing);
        proof {
            let chosen = listing_of(record_of(*listing));
            assert(record@ == record_of(*listing));
            lemma_view_injective(record, chosen);
        }
        record
    }
}

impl vstd::std_specs::convert::FromSpecImpl<&universalis::Listing> for Listing {
    open spec fn obeys_from_spec() -> bool {
        true
    }

    open spec fn from_spec(listing: &universalis::Listing) -> Listing {
        listing_of(record_of(*listing))
    }
}

/// Materia packing: a slot holds the tier in its high byte and the socket in
/// its low byte, and both can be read back from it.
pub proof fn lemma_packed_materia(materia: MateriaInfo)
    ensures
        packed_materia(materia) == materia.materia_index * 256 + materia.slot_index,
        packed_materia(materia) >> 8 == materia.materia_index,
        packed_materia(materia) & 0xff == materia.slot_index,
{
    let tier = materia.materia_index;
    let socket = materia.slot_index;
    assert(((tier as u16) << 8 | (socket as u16)) == tier * 256 + socket) by (bit_vector);
    assert(((tier as u16) << 8 | (socket as u16)) >> 8 == tier) by (bit_vector);
    assert(((tier as u16) << 8 | (socket as u16)) & 0xff == socket) by (bit_vector);
}

/// Materia packing: of a listing with `k` materia, the slots before `k` hold
/// the packed materia in their order, and the slots from `k` on hold zero.
/// There are always five slots; materia from the sixth on appear nowhere.
pub proof fn lemma_materia_slots(materia: Seq<MateriaInfo>)
    ensures
        materia_slots(materia).len() == 5,
        forall|i: int|
            0 <= i < 5 && i < materia.len() ==> materia_slots(materia)[i] == packed_materia(
                materia[i],
            ),
        forall|i: int| 0 <= i < 5 && i >= materia.len() ==> materia_slots(materia)[i] == 0,
{
}

/// The records of the listings of an event, in their order.
pub open spec fn records_of(listings: Seq<universalis::Listing>) -> Seq<ListingView> {
    Seq::new(listings.len(), |i: int| record_of(listings[i]))
}

/// Converts every listing of an event.
pub fn convert_listings(listings: &[universalis::Listing]) -> (records: Vec<Listing>)
    ensures
        records@.len() == listings@.len(),
        views(records@) == records_of(listings@),
{
    let mut records: Vec<Listing> = Vec::with_capacity(listings.len());
    for i in 0..listings.len()
        invariant
            records@.len() == i,
            forall|k: int| 0 <= k < i ==> (#[trigger] records@[k])@ == record_of(listings@[k]),
    {
        records.push(convert_to_listingsdb_listing(&listings[i]));
    }
    proof {
        assert(views(records@) =~= records_of(listings@));
    }
    records
}

/// What an event asks of the store.
#[derive(Debug, PartialEq, Eq, Clone)]
pub enum Update {
    /// Write `blob` for the pair.
    Store { item: u16, world: u16, blob: Vec<u8> },
    /// The event could not be wrapped and is dropped.
    Rejected(stored_data::Error),
    /// The event is of a kind that is not stored.
    Ignored,
}

/// Decides what an event asks of the store. Only added listings are stored:
/// they are converted and wrapped with `now` as their instant. Every other
/// kind is ignored.
pub fn prepare_update(message: &Message, now: i64) -> (update: Update)
    ensures
        match *message {
            Message::ListingsAdd { world, item, listings } => if listings@.len()
                <= MAX_NUM_LISTINGS_PER_ITEM {
                &&& update matches Update::Store { item: to_item, world: to_world, blob }
                &&& to_item == item
                &&& to_world == world
                &&& stored_snapshot(blob@) == Some((now, records_of(listings@)))
            } else {
                update == Update::Rejected(stored_data::Error::TooManyListings)
            },
            _ => update is Ignored,
        },
{
    match message {
        Message::ListingsAdd { world, item, listings } => {
            let records = convert_listings(listings.as_slice());
            match make_stored_data(now, records.as_slice()) {
                Ok(blob) => Update::Store { item: *item, world: *world, blob },
                Err(e) => Update::Rejected(e),
            }
        },
        _ => Update::Ignored,
    }
}

/// What became of an event.
#[derive(Debug, PartialEq, Eq, Clone, Copy, Structural)]
pub enum Outcome {
    /// Its snapshot is in the store.
    Stored,
    /// It could not be wrapped and was dropped; the store is as it was.
    Dropped(stored_data::Error),
    /// It is of a kind that is not stored; the store is as it was.
    Discarded,
}

/// Ingests one event into a store: the snapshot of added listings replaces
/// what the store held for their pair; nothing else ever changes the store.
pub fn ingest(db: &mut Database, message: &Message, now: i64) -> (outcome: Outcome)
    ensures
        match *message {
            Message::ListingsAdd { world, item, listings } => if listings@.len()
                <= MAX_NUM_LISTINGS_PER_ITEM {
                &&& outcome == Outcome::Stored
                &&& snapshot_replaced(
                    old(db)@,
                    final(db)@,
                    item,
                    world,
                    now,
                    records_of(listings@),
                )
            } else {
                &&& outcome == Outcome::Dropped(stored_data::Error::TooManyListings)
                &&& final(db)@ == old(db)@
            },
            _ => outcome == Outcome::Discarded && final(db)@ == old(db)@,
        },
{
    match prepare_update(message, now) {
        Update::Store { item, world, blob } => {
            db.put(item, world, blob);
            Outcome::Stored
        },
        Update::Rejected(e) => Outcome::Dropped(e),
        Update::Ignored => Outcome::Discarded,
    }
}

/// Idempotence under replay: ingesting the same listings for a pair a second
/// time leaves the store as one ingestion would have left it. The pair holds
/// one snapshot, that of the last instant; no pair is added or lost by the
/// replay, and every other pair holds what it held.
pub proof fn lemma_replay(
    before: Contents,
    once: Contents,
    twice: Contents,
    item: u16,
    world: u16,
    first: i64,
    second: i64,
    records: Seq<ListingView>,
)
    requires
        snapshot_replaced(before, once, item, world, first, records),
        snapshot_replaced(once, twice, item, world, second, records),
    ensures
        snapshot_replaced(before, twice, item, world, second, records),
        twice.dom() == once.dom(),
        forall|i: u16, w: u16| (i, w) != (item, world) ==> stored(twice, i, w) == stored(before, i, w),
        first == second ==> stored_snapshot(twice[(item, world)]) == stored_snapshot(
            once[(item, world)],
        ),
{
    assert(twice =~= written(before, item, world, twice[(item, world)]));
    assert(twice.dom() =~= once.dom());
}

/// The waits of the pipeline, in milliseconds.
#[derive(Debug, PartialEq, Eq, Clone, Copy, Structural)]
pub struct Config {
    /// The wait after an attempt to connect failed.
    pub connect_backoff_millis: u64,
    /// The wait after a connection was lost.
    pub reconnect_delay_millis: u64,
}

impl Default for Config {
    fn default() -> (config: Config)
        ensures
            config.connect_backoff_millis == 5000,
            config.reconnect_delay_millis == 500,
    {
        Config { connect_backoff_millis: 5000, reconnect_delay_millis: 500 }
    }
}

/// What happened since the pipeline last said what to do.
#[derive(Debug, PartialEq, Eq, Clone)]
pub enum Event {
    /// The pipeline starts.
    Start,
    /// The wait is over.
    Waited,
    /// The attempt to connect failed.
    ConnectFailed(universalis::Error),
    /// The attempt to connect succeeded.
    Connected,
    /// The request or the keepalive went out, or could not be sent: the next
    /// read will tell.
    Sent,
    /// A read gave this.
    Frame(Frame),
    /// The store took the blob.
    Stored,
    /// The store refused the blob.
    StoreFailed,
}

/// What the pipeline wants done next.
#[derive(Debug, PartialEq, Eq, Clone)]
pub enum Action {
    /// Connect to the feed.
    Connect,
    /// Wait, then report `Waited`.
    Wait { millis: u64 },
    /// Send this control document.
    Subscribe { request: Vec<u8> },
    /// Send a keepalive.
    Keepalive,
    /// Read from the transport.
    Read,
    /// Write `blob` for the pair.
    Store { item: u16, world: u16, blob: Vec<u8> },
}

/// The state after an event. The pipeline is subscribed from the moment it
/// is connected until the transport breaks or an event comes that a
/// subscribed connection cannot give.
pub open spec fn next_state(state: ConnectionState, event: Event) -> ConnectionState {
    match event {
        Event::Start => ConnectionState::Disconnected,
        Event::Waited => ConnectionState::Disconnected,
        Event::ConnectFailed(_) => ConnectionState::Disconnected,
        Event::Connected => ConnectionState::Subscribed,
        Event::Frame(Frame::Broken) => ConnectionState::Disconnected,
        _ => if state == ConnectionState::Subscribed {
            ConnectionState::Subscribed
        } else {
            ConnectionState::Disconnected
        },
    }
}

/// Whether `action` is what the pipeline wants after `event` in `state`.
pub open spec fn decided(
    state: ConnectionState,
    config: Config,
    event: Event,
    now: i64,
    action: Action,
) -> bool {
    match event {
        Event::Start => action == Action::Connect,
        Event::Waited => action == Action::Connect,
        Event::ConnectFailed(_) => action == (Action::Wait {
            millis: config.connect_backoff_millis,
        }),
        Event::Connected => {
            &&& action matches Action::Subscribe { request }
            &&& request@ == control_document("subscribe"@, LISTINGS_ADD_CHANNEL@)
        },
        _ => if state != ConnectionState::Subscribed {
            action == Action::Connect
        } else {
            match event {
                Event::Frame(Frame::Broken) => action == (Action::Wait {
                    millis: config.reconnect_delay_millis,
                }),
                Event::Frame(Frame::Stalled) => action == Action::Keepalive,
                Event::Frame(Frame::Payload(Message::ListingsAdd { world, item, listings })) => {
                    if listings@.len() <= MAX_NUM_LISTINGS_PER_ITEM {
                        &&& action matches Action::Store { item: to_item, world: to_world, blob }
                        &&& to_item == item
                        &&& to_world == world
                        &&& stored_snapshot(blob@) == Some((now, records_of(listings@)))
                    } else {
                        action == Action::Read
                    }
                },
                _ => action == Action::Read,
            }
        },
    }
}

/// The ingestion pipeline as a machine: it is told what happened and says
/// what to do next. It has no state from which it stops.
#[derive(Debug, PartialEq, Eq, Clone, Copy)]
pub struct Pipeline {
    connection: Option<Connection>,
    config: Config,
}

impl Pipeline {
    /// The state of the connection that the pipeline holds.
    pub closed spec fn state(&self) -> ConnectionState {
        match self.connection {
            Some(connection) => connection@,
            None => ConnectionState::Disconnected,
        }
    }

    /// The waits that the pipeline was made with.
    pub closed spec fn config(&self) -> Config {
        self.config
    }

    /// A pipeline without a connection.
    pub fn new(config: Config) -> (pipeline: Pipeline)
        ensures
            pipeline.state() == ConnectionState::Disconnected,
            pipeline.config() == config,
    {
        Pipeline { connection: None, config }
    }

    /// Whether the pipeline holds a connection on which events are read.
    pub fn is_subscribed(&self) -> (subscribed: bool)
        ensures
            subscribed == (self.state() == ConnectionState::Subscribed),
    {
        match &self.connection {
            Some(connection) => match connection.state() {
                ConnectionState::Subscribed => true,
                _ => false,
            },
            None => false,
        }
    }

    /// Takes an event and decides what to do next. `now` is the instant that
    /// a snapshot gets if the event carries one.
    pub fn step(&mut self, event: Event, now: i64) -> (action: Action)
        ensures
            final(self).config() == old(self).config(),
            final(self).state() == next_state(old(self).state(), event),
            decided(old(self).state(), old(self).config(), event, now, action),
    {
        match event {
            Event::Start | Event::Waited => {
                self.connection = None;
                Action::Connect
            },
            Event::ConnectFailed(_) => {
                self.connection = None;
                Action::Wait { millis: self.config.connect_backoff_millis }
            },
            Event::Connected => {
                proof {
                    reveal_strlit("listings/add");
                    lemma_utf8_len(LISTINGS_ADD_CHANNEL@);
                }
                match Connection::connect(Ok(())) {
                    Ok(mut connection) => match connection.subscribe(LISTINGS_ADD_CHANNEL) {
                        Some(request) => {
                            self.connection = Some(connection);
                            Action::Subscribe { request }
                        },
                        None => {
                            self.connection = None;
                            Action::Connect
                        },
                    },
                    Err(_) => {
                        self.connection = None;
                        Action::Connect
                    },
                }
            },
            other => {
                let mut connection = match self.connection {
                    Some(connection) => connection,
                    None => {
                        return Action::Connect;
                    },
                };
                if connection.state() != ConnectionState::Subscribed {
                    self.connection = None;
                    return Action::Connect;
                }
                match other {
                    Event::Frame(frame) => match connection.read_message(frame) {
                        ReadStep::Deliver(message) => match prepare_update(&message, now) {
                            Update::Store { item, world, blob } => Action::Store {
                                item,
                                world,
                                blob,
                            },
                            _ => Action::Read,
                        },
                        ReadStep::Skip => Action::Read,
                        ReadStep::Keepalive => Action::Keepalive,
                        ReadStep::Fail(_) => {
                            self.connection = None;
                            Action::Wait { millis: self.config.reconnect_delay_millis }
                        },
                    },
                    _ => Action::Read,
                }
            },
        }
    }
}

} // verus!
