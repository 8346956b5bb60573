use ffmarketdb::universalis::{
    control_message, Connection, ConnectionState, Error, Frame, Message, ReadStep, FEED_URL,
    LISTINGS_ADD_CHANNEL, MAX_CONTROL_TEXT_BYTES, READ_TIMEOUT_SECONDS,
};

fn event() -> Message {
    Message::ListingsRemove { world: 1, item: 2, listings: vec![] }
}

fn connected() -> Connection {
    Connection::connect(Ok(())).unwrap()
}

#[test]
fn control_document_is_byte_exact() {
    let mut expected: Vec<u8> = vec![52, 0, 0, 0];
    expected.push(0x02);
    expected.extend_from_slice(b"event\0");
    expected.extend_from_slice(&[10, 0, 0, 0]);
    expected.extend_from_slice(b"subscribe\0");
    expected.push(0x02);
    expected.extend_from_slice(b"channel\0");
    expected.extend_from_slice(&[13, 0, 0, 0]);
    expected.extend_from_slice(b"listings/add\0");
    expected.push(0);
    assert_eq!(expected.len(), 52);
    assert_eq!(control_message("subscribe", "listings/add"), Some(expected));
}

#[test]
fn control_document_is_read_by_a_bson_parser() {
    let bytes = control_message("unsubscribe", "sales/add{world=4}").unwrap();
    let document = bson::Document::from_reader(bytes.as_slice()).unwrap();
    assert_eq!(document.len(), 2);
    assert_eq!(document.get_str("event"), Ok("unsubscribe"));
    assert_eq!(document.get_str("channel"), Ok("sales/add{world=4}"));
    assert_eq!(document.keys().collect::<Vec<_>>(), vec!["event", "channel"]);
}

#[test]
fn control_document_takes_any_channel_name() {
    for channel in ["", "é", "a\0b", "日本語のチャンネル"] {
        let bytes = control_message("subscribe", channel).unwrap();
        assert_eq!(bytes.len(), 40 + channel.len());
        assert_eq!(&bytes[..4], &(bytes.len() as i32).to_le_bytes());
        let document = bson::Document::from_reader(bytes.as_slice()).unwrap();
        assert_eq!(document.get_str("channel"), Ok(channel));
    }
}

#[test]
fn feed_constants() {
    assert_eq!(FEED_URL, "wss://universalis.app/api/ws");
    assert_eq!(LISTINGS_ADD_CHANNEL, "listings/add");
    assert_eq!(READ_TIMEOUT_SECONDS, 15);
}

#[test]
fn connect_gives_an_idle_connection_or_the_error() {
    assert_eq!(connected().state(), ConnectionState::Idle);
    for error in [
        Error::NameResolveFailed,
        Error::ConnectFailed,
        Error::WebsocketHandshakeFailed,
        Error::ReadMessageFailed,
    ] {
        assert_eq!(Connection::connect(Err(error)), Err(error));
    }
}

#[test]
fn subscribe_sends_the_request_and_subscribes() {
    let mut connection = connected();
    assert_eq!(
        connection.subscribe("listings/add"),
        control_message("subscribe", "listings/add")
    );
    assert!(control_message("subscribe", "listings/add").is_some());
    assert_eq!(connection.state(), ConnectionState::Subscribed);
    assert_eq!(
        connection.subscribe("sales/add"),
        control_message("subscribe", "sales/add")
    );
    assert_eq!(connection.state(), ConnectionState::Subscribed);
}

#[test]
fn unsubscribe_sends_the_request_and_idles() {
    let mut connection = connected();
    connection.subscribe("listings/add");
    assert_eq!(
        connection.unsubscribe("listings/add"),
        control_message("unsubscribe", "listings/add")
    );
    assert_eq!(connection.state(), ConnectionState::Idle);
}

#[test]
fn read_loop_keeps_the_state_until_the_transport_breaks() {
    let mut connection = connected();
    connection.subscribe("listings/add");
    assert_eq!(connection.read_message(Frame::Payload(event())), ReadStep::Deliver(event()));
    assert_eq!(connection.read_message(Frame::Noise), ReadStep::Skip);
    assert_eq!(connection.read_message(Frame::Control), ReadStep::Skip);
    assert_eq!(connection.read_message(Frame::Stalled), ReadStep::Keepalive);
    assert_eq!(connection.state(), ConnectionState::Subscribed);
    assert_eq!(
        connection.read_message(Frame::Broken),
        ReadStep::Fail(Error::ReadMessageFailed)
    );
    assert_eq!(connection.state(), ConnectionState::Disconnected);
}

#[test]
fn lost_connection_sends_nothing_and_reads_nothing() {
    let mut connection = connected();
    connection.read_message(Frame::Broken);
    assert_eq!(connection.subscribe("listings/add"), None);
    assert_eq!(connection.unsubscribe("listings/add"), None);
    assert_eq!(
        connection.read_message(Frame::Payload(event())),
        ReadStep::Fail(Error::ReadMessageFailed)
    );
    assert_eq!(connection.read_message(Frame::Stalled), ReadStep::Fail(Error::ReadMessageFailed));
    assert_eq!(connection.state(), ConnectionState::Disconnected);
}

#[test]
fn text_over_the_limit_is_not_sent() {
    let mut bytes: Vec<u8> = Vec::new();
    if bytes.try_reserve_exact(MAX_CONTROL_TEXT_BYTES + 1).is_err() {
        return;
    }
    bytes.resize(MAX_CONTROL_TEXT_BYTES + 1, b'a');
    let text = String::from_utf8(bytes).unwrap();
    assert_eq!(control_message("subscribe", &text), None);
    assert_eq!(control_message(&text, "listings/add"), None);
    let mut connection = connected();
    assert_eq!(connection.subscribe(&text), None);
    assert_eq!(connection.state(), ConnectionState::Idle);
    connection.subscribe("listings/add");
    assert_eq!(connection.unsubscribe(&text), None);
    assert_eq!(connection.state(), ConnectionState::Subscribed);
}
