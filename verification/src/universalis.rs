//! The upstream feed: the events it publishes and the rules of a connection
//! to it.

use crate::little_endian::lemma_le_bytes_len;
use crate::raw_document::{
    append_string, document, document_bytes, elements_of, into_bytes, new_document,
    string_element,
};
use vstd::prelude::*;
use vstd::utf8::encode_utf8;

verus! {

/// One materia of a listing: the socket it sits in and its tier.
#[derive(Debug, PartialEq, Eq, Clone, Copy, Default)]
pub struct MateriaInfo {
    pub slot_index: u8,
    pub materia_index: u8,
}

/// A listing as the feed publishes it.
#[derive(Debug, PartialEq, Eq, Clone, Default)]
pub struct Listing {
    pub is_hq: bool,
    pub is_crafted: bool,
    pub is_on_mannequin: bool,
    pub city: u8,
    pub retainer_name: String,
    pub dye_id: u16,
    pub materia: Vec<MateriaInfo>,
    pub amount: u16,
    pub price_per_unit: u32,
    pub total_price: u32,
    pub creation_time: u64,
    pub seller_id: String,
}

/// A sale as the feed publishes it.
#[derive(Debug, PartialEq, Eq, Clone, Default)]
pub struct Sale {
    pub is_hq: bool,
    pub is_on_mannequin: bool,
    pub amount: u16,
    pub price_per_unit: u32,
    pub total_price: u32,
    pub time_of_sale: u64,
    pub buyer: String,
}

/// An event of the feed.
#[derive(Debug, PartialEq, Eq, Clone)]
pub enum Message {
    ListingsAdd { world: u16, item: u16, listings: Vec<Listing> },
    ListingsRemove { world: u16, item: u16, listings: Vec<Listing> },
    SalesAdd { world: u16, item: u16, sales: Vec<Sale> },
}

/// The address of the feed.
pub const FEED_URL: &'static str = "wss://universalis.app/api/ws";

/// The channel on which the feed publishes added listings.
pub const LISTINGS_ADD_CHANNEL: &'static str = "listings/add";

/// The seconds without a frame after which the peer counts as idle and a
/// keepalive is sent.
pub const READ_TIMEOUT_SECONDS: u64 = 15;

/// The longest text, in bytes, that a field of a control document can
/// carry: the lengths in a document are 32-bit signed numbers.
pub const MAX_CONTROL_TEXT_BYTES: usize = 0x3fff_0000;

/// Why a connection could not be made, or ended.
#[derive(Debug, PartialEq, Eq, Clone, Copy, Structural)]
pub enum Error {
    /// The name of the feed's host did not resolve.
    NameResolveFailed,
    /// No address of the host accepted a connection.
    ConnectFailed,
    /// The websocket handshake failed.
    WebsocketHandshakeFailed,
    /// The transport failed while reading.
    ReadMessageFailed,
}

/// The bytes of the control document that asks the feed to `event` (to
/// subscribe or to unsubscribe) the channel: a BSON document with the two
/// string fields `event` and `channel`, in this order.
pub open spec fn control_document(event: Seq<char>, channel: Seq<char>) -> Seq<u8> {
    document(string_element("event"@, event) + string_element("channel"@, channel))
}

/// Whether `text` is short enough for a field of a control document.
pub open spec fn fits_control_document(text: Seq<char>) -> bool {
    encode_utf8(text).len() <= MAX_CONTROL_TEXT_BYTES
}

/// Builds a control document, unless one of the two texts is longer than
/// [`MAX_CONTROL_TEXT_BYTES`].
pub fn control_message(event: &str, channel: &str) -> (request: Option<Vec<u8>>)
    ensures
        match request {
            Some(bytes) => {
                &&& fits_control_document(event@)
                &&& fits_control_document(channel@)
                &&& bytes@ == control_document(event@, channel@)
            },
            None => !fits_control_document(event@) || !fits_control_document(channel@),
        },
{
    if event.as_bytes().len() > MAX_CONTROL_TEXT_BYTES || channel.as_bytes().len()
        > MAX_CONTROL_TEXT_BYTES {
        return None;
    }
    proof {
        reveal_strlit("event");
        reveal_strlit("channel");
        lemma_utf8_len("event"@);
        lemma_utf8_len("channel"@);
        lemma_string_element_len("event"@, event@);
        lemma_string_element_len("channel"@, channel@);
        lemma_le_bytes_len(5, 4);
        lemma_le_bytes_len((string_element("event"@, event@).len() + 5) as nat, 4);
    }
    let mut buffer = new_document();
    assert(elements_of(document_bytes(buffer)) =~= Seq::<u8>::empty());
    append_string(&mut buffer, "event", event);
    let ghost first = string_element("event"@, event@);
    assert(elements_of(document_bytes(buffer)) =~= first);
    append_string(&mut buffer, "channel", channel);
    Some(into_bytes(buffer))
}

/// The UTF-8 bytes of a text are at most four for each character.
pub proof fn lemma_utf8_len(text: Seq<char>)
    ensures
        encode_utf8(text).len() <= 4 * text.len(),
    decreases text.len(),
{
    if text.len() > 0 {
        lemma_utf8_len(text.drop_first());
    }
}

/// The length of a string element.
proof fn lemma_string_element_len(key: Seq<char>, value: Seq<char>)
    ensures
        string_element(key, value).len() == encode_utf8(key).len() + encode_utf8(value).len() + 7,
{
    lemma_le_bytes_len((encode_utf8(value).len() + 1) as nat, 4);
}

/// The states of a connection to the feed. There are no others: a
/// connection that fails is disconnected, and it is for its owner to connect
/// again.
#[derive(Debug, PartialEq, Eq, Clone, Copy, Structural)]
pub enum ConnectionState {
    /// No transport.
    Disconnected,
    /// Connected, no channel subscribed.
    Idle,
    /// Connected and subscribed: events can be read.
    Subscribed,
}

/// What one read of the transport gave.
#[derive(Debug, PartialEq, Eq, Clone)]
pub enum Frame {
    /// A payload frame that decoded to an event.
    Payload(Message),
    /// A payload frame that did not decode against the schema.
    Noise,
    /// A frame that carries no payload: a ping, a pong, text, a close.
    Control,
    /// No frame came within [`READ_TIMEOUT_SECONDS`].
    Stalled,
    /// The transport failed.
    Broken,
}

/// What the reader does with what a read gave.
#[derive(Debug, PartialEq, Eq, Clone)]
pub enum ReadStep {
    /// Hand the event to the caller.
    Deliver(Message),
    /// Read again.
    Skip,
    /// Send a keepalive, then read again.
    Keepalive,
    /// Give up: the connection is lost.
    Fail(Error),
}

/// The step for a frame on a connection that can be read. A frame that does
/// not decode is noise, and a stall is answered with a keepalive; only a
/// broken transport ends the reading.
pub open spec fn read_step(frame: Frame) -> ReadStep {
    match frame {
        Frame::Payload(message) => ReadStep::Deliver(message),
        Frame::Noise => ReadStep::Skip,
        Frame::Control => ReadStep::Skip,
        Frame::Stalled => ReadStep::Keepalive,
        Frame::Broken => ReadStep::Fail(Error::ReadMessageFailed),
    }
}

/// The protocol side of a connection: it keeps the state and says what goes
/// over the transport, which somebody else drives.
#[derive(Debug, PartialEq, Eq, Clone, Copy)]
pub struct Connection {
    state: ConnectionState,
}

impl View for Connection {
    type V = ConnectionState;

    closed spec fn view(&self) -> ConnectionState {
        self.state
    }
}

impl Connection {
    /// The connection that an attempt to connect leaves: idle where the
    /// attempt succeeded, none where it failed.
    pub fn connect(attempt: Result<(), Error>) -> (result: Result<Connection, Error>)
        ensures
            match attempt {
                Ok(()) => result matches Ok(connection) && connection@ == ConnectionState::Idle,
                Err(e) => result == Err::<Connection, Error>(e),
            },
    {
        match attempt {
            Ok(()) => Ok(Connection { state: ConnectionState::Idle }),
            Err(e) => Err(e),
        }
    }

    pub fn state(&self) -> (state: ConnectionState)
        ensures
            state == self@,
    {
        self.state
    }

    /// Subscribes a channel: the control document to send, and the
    /// connection is subscribed. Nothing is sent, and nothing changes, on a
    /// lost connection and for a name longer than
    /// [`MAX_CONTROL_TEXT_BYTES`].
    pub fn subscribe(&mut self, channel: &str) -> (request: Option<Vec<u8>>)
        ensures
            match request {
                Some(bytes) => {
                    &&& bytes@ == control_document("subscribe"@, channel@)
                    &&& final(self)@ == ConnectionState::Subscribed
                },
                None => final(self)@ == old(self)@,
            },
            request is Some <==> old(self)@ != ConnectionState::Disconnected
                && fits_control_document(channel@),
    {
        if let ConnectionState::Disconnected = self.state {
            return None;
        }
        proof {
            reveal_strlit("subscribe");
            lemma_utf8_len("subscribe"@);
        }
        let request = control_message("subscribe", channel);
        if request.is_some() {
            self.state = ConnectionState::Subscribed;
        }
        request
    }

    /// Unsubscribes a channel: the control document to send, and the
    /// connection is idle again. Nothing is sent, and nothing changes, on a
    /// lost connection and for a name longer than
    /// [`MAX_CONTROL_TEXT_BYTES`].
    pub fn unsubscribe(&mut self, channel: &str) -> (request: Option<Vec<u8>>)
        ensures
            match request {
                Some(bytes) => {
                    &&& bytes@ == control_document("unsubscribe"@, channel@)
                    &&& final(self)@ == ConnectionState::Idle
                },
                None => final(self)@ == old(self)@,
            },
            request is Some <==> old(self)@ != ConnectionState::Disconnected
                && fits_control_document(channel@),
    {
        if let ConnectionState::Disconnected = self.state {
            return None;
        }
        proof {
            reveal_strlit("unsubscribe");
            lemma_utf8_len("unsubscribe"@);
        }
        let request = control_message("unsubscribe", channel);
        if request.is_some() {
            self.state = ConnectionState::Idle;
        }
        request
    }

    /// Takes what one read gave and says what to do with it. A broken
    /// transport disconnects; nothing else changes the state. On a lost
    /// connection every read fails.
    pub fn read_message(&mut self, frame: Frame) -> (step: ReadStep)
        ensures
            step == if old(self)@ == ConnectionState::Disconnected {
                ReadStep::Fail(Error::ReadMessageFailed)
            } else {
                read_step(frame)
            },
            final(self)@ == if frame is Broken {
                ConnectionState::Disconnected
            } else {
                old(self)@
            },
    {
        if let Frame::Broken = frame {
            self.state = ConnectionState::Disconnected;
            return ReadStep::Fail(Error::ReadMessageFailed);
        }
        if let ConnectionState::Disconnected = self.state {
            return ReadStep::Fail(Error::ReadMessageFailed);
        }
        match frame {
            Frame::Payload(message) => ReadStep::Deliver(message),
            Frame::Noise => ReadStep::Skip,
            Frame::Control => ReadStep::Skip,
            Frame::Stalled => ReadStep::Keepalive,
            Frame::Broken => ReadStep::Fail(Error::ReadMessageFailed),
        }
    }
}

} // verus!
