use chat_fanout::chat::ChatRoom;
use chat_fanout::connection::{
    ConnectionAction, ConnectionEvent, ConnectionState, InboundFrame, MyWebSocket,
};
use chat_fanout::media::UploadedFile;
use chat_fanout::chat::MyMessage;

const PRESENCE: &str = "{\"message_type\":\"UPDATE_USERS\"}";

fn sorted(mut v: Vec<u128>) -> Vec<u128> {
    v.sort();
    v
}

#[test]
fn add_session_announces_presence_to_everyone() {
    let mut room = ChatRoom::new();
    let d = room.add_session(1, 100);
    assert_eq!(d.handles, vec![100]);
    assert_eq!(d.message.0, PRESENCE);
    let d = room.add_session(2, 200);
    let mut handles = d.handles.clone();
    handles.sort();
    assert_eq!(handles, vec![100, 200]);
    assert_eq!(sorted(room.get_connected_user_ids()), vec![1, 2]);
}

#[test]
fn second_connection_replaces_the_first() {
    let mut room = ChatRoom::new();
    room.add_session(1, 100);
    room.add_session(1, 101);
    assert_eq!(room.get_connected_user_ids(), vec![1]);
    let d = room.send_message(&vec![1], "x");
    assert_eq!(d.handles, vec![101]);
    // The stale connection closes: the newer one stays.
    let d = room.remove_session(1, 100);
    assert_eq!(d.handles, vec![101]);
    assert_eq!(room.get_connected_user_ids(), vec![1]);
}

#[test]
fn removing_a_stale_handle_twice_changes_nothing() {
    let mut room = ChatRoom::new();
    room.add_session(1, 100);
    room.add_session(2, 200);
    room.remove_session(1, 999);
    assert_eq!(sorted(room.get_connected_user_ids()), vec![1, 2]);
    let d = room.remove_session(1, 999);
    assert_eq!(sorted(room.get_connected_user_ids()), vec![1, 2]);
    let mut handles = d.handles.clone();
    handles.sort();
    assert_eq!(handles, vec![100, 200]);
}

#[test]
fn add_then_remove_leaves_user_unreachable() {
    let mut room = ChatRoom::new();
    room.add_session(2, 200);
    room.add_session(1, 100);
    let d = room.remove_session(1, 100);
    assert_eq!(d.handles, vec![200]);
    assert_eq!(d.message.0, PRESENCE);
    assert!(!room.get_connected_user_ids().contains(&1));
    let d = room.send_message(&vec![1], "payload");
    assert!(d.handles.is_empty());
}

#[test]
fn broadcast_skips_offline_users_and_keeps_order() {
    let mut room = ChatRoom::new();
    room.add_session(1, 100);
    room.add_session(3, 300);
    let d = room.send_message(&vec![3, 2, 1], "hi");
    assert_eq!(d.handles, vec![300, 100]);
    assert_eq!(d.message.0, "hi");
    let empty = ChatRoom::new();
    assert!(empty.get_connected_user_ids().is_empty());
}

#[test]
fn connection_registers_relays_and_deregisters_once() {
    let mut ws = MyWebSocket::new(7, 70);
    assert_eq!(ws.state, ConnectionState::Connecting);
    let a = ws.handle_event(ConnectionEvent::Started);
    assert!(matches!(a[..], [ConnectionAction::Register { user_id: 7, handle: 70 }]));
    assert_eq!(ws.state, ConnectionState::Open);
    let a = ws.handle_event(ConnectionEvent::Frame(InboundFrame::Ping(vec![1, 2])));
    assert!(matches!(&a[..], [ConnectionAction::SendPong(b)] if *b == vec![1, 2]));
    let a = ws.handle_event(ConnectionEvent::Frame(InboundFrame::Binary));
    assert!(a.is_empty());
    let a = ws.handle_event(ConnectionEvent::Frame(InboundFrame::Text("t".to_string())));
    assert!(a.is_empty());
    let a = ws.handle_event(ConnectionEvent::Push(MyMessage("one".to_string())));
    assert!(matches!(&a[..], [ConnectionAction::SendText(t)] if t == "one"));
    let a = ws.handle_event(ConnectionEvent::Frame(InboundFrame::Close));
    assert!(matches!(
        a[..],
        [ConnectionAction::Stop, ConnectionAction::Deregister { user_id: 7, handle: 70 }]
    ));
    assert_eq!(ws.state, ConnectionState::Closed);
    assert!(ws.handle_event(ConnectionEvent::Stopped).is_empty());
    assert!(ws.handle_event(ConnectionEvent::Push(MyMessage("late".to_string()))).is_empty());
}

#[test]
fn transport_failure_closes_and_deregisters() {
    let mut ws = MyWebSocket::new(7, 70);
    ws.handle_event(ConnectionEvent::Started);
    let a = ws.handle_event(ConnectionEvent::TransportError);
    assert!(matches!(
        a[..],
        [ConnectionAction::Stop, ConnectionAction::Deregister { user_id: 7, handle: 70 }]
    ));
    let mut ws = MyWebSocket::new(8, 80);
    ws.handle_event(ConnectionEvent::Started);
    let a = ws.handle_event(ConnectionEvent::Stopped);
    assert!(matches!(a[..], [ConnectionAction::Deregister { user_id: 8, handle: 80 }]));
    assert_eq!(ws.state, ConnectionState::Closed);
}

#[test]
fn uploaded_file_keeps_its_fields() {
    let f = UploadedFile::new("a.png".to_string(), "k/a.png".to_string(), "https://h/k/a.png".to_string());
    assert_eq!(f.filename, "a.png");
    assert_eq!(f.s3_key, "k/a.png");
    assert_eq!(f.s3_url, "https://h/k/a.png");
}
