use game_relay::netconnection::netconnection::{
    NetConnection, NetConnectionMessage, NetConnectionRead, NetConnectionSink,
    NetConnectionSinkMessage, NetConnectionStream, NetConnectionWrite, Polled, Queued, ReadBatch,
    SinkCommand, SinkEvent, SinkTask, StreamMessage,
};
use game_relay::relay::messages::NetRelayMessage;
use game_relay::relay::netconnection as queued;
use game_relay::utils::time::Duration;
use tokio_util::bytes::Bytes;

fn message(n: u64) -> NetConnectionMessage {
    NetConnectionMessage {
        source_netid: n,
        destination_netid: 2,
        compressed: false,
        data: Bytes::from_static(b"abc"),
    }
}

fn item(n: u64) -> Polled {
    Polled::Item(StreamMessage::Message(message(n)))
}

#[test]
fn reading_a_stream() {
    let mut stream = NetConnectionStream::new("s".to_string(), ());
    assert!(matches!(stream.read_message(Polled::Closed), (NetConnectionRead::Closed, false)));
    assert!(matches!(stream.read_message(Polled::Pending), (NetConnectionRead::Empty, false)));
    assert!(matches!(stream.read_message(Polled::Ended), (NetConnectionRead::Closed, true)));
    assert!(matches!(stream.read_message(Polled::Failed), (NetConnectionRead::Closed, true)));
    let ping = Polled::Item(StreamMessage::PingResponse);
    assert!(matches!(stream.read_message(ping), (NetConnectionRead::Empty, false)));
    match stream.read_message(item(7)) {
        (NetConnectionRead::Data(m), false) => assert_eq!(m.source_netid, 7),
        _ => panic!("no message"),
    }
    let nothing = stream.read_message_or_timeout(None);
    assert!(matches!(nothing, (NetConnectionRead::Empty, false)));
    let ended = stream.read_message_or_timeout(Some(Polled::Ended));
    assert!(matches!(ended, (NetConnectionRead::Closed, true)));
    let waiting = stream.try_read_message(Polled::Pending);
    assert!(matches!(waiting, (NetConnectionRead::Empty, false)));
    assert_eq!(stream.to_text(), "NCStream { Info: s }");
}

fn batch(max: usize, polls: Vec<Polled>) -> (NetConnectionRead<Vec<NetConnectionMessage>>, usize) {
    let mut stream = NetConnectionStream::new("s".to_string(), ());
    let mut batch = ReadBatch::new(max);
    let mut looks = 0;
    for p in polls {
        if !batch.is_open() {
            break;
        }
        looks += 1;
        stream.try_read_messages(&mut batch, p);
    }
    (batch.finish(), looks)
}

#[test]
fn reading_batches() {
    assert!(matches!(batch(3, vec![Polled::Pending, item(1)]), (NetConnectionRead::Empty, 1)));
    assert!(matches!(batch(3, vec![Polled::Closed, item(1)]), (NetConnectionRead::Closed, 1)));
    match batch(0, vec![item(1)]) {
        (NetConnectionRead::Data(m), 0) => assert!(m.is_empty()),
        _ => panic!("no data"),
    }
    match batch(3, vec![item(1), item(2), Polled::Ended, item(3)]) {
        (NetConnectionRead::Data(m), 3) => {
            assert_eq!(m.iter().map(|m| m.source_netid).collect::<Vec<_>>(), vec![1, 2]);
        }
        _ => panic!("no data"),
    }
    match batch(2, vec![item(1), item(2), item(3)]) {
        (NetConnectionRead::Data(m), 2) => assert_eq!(m.len(), 2),
        _ => panic!("no data"),
    }
}

#[test]
fn timeouts() {
    let mut stream = NetConnectionStream::new("s".to_string(), ());
    assert!(!stream.has_timed_out(Duration::from_millis(u64::MAX)));
    assert!(!stream.has_contact_timeout());
    stream.set_timeout(Duration::from_millis(10));
    assert!(!stream.has_timed_out(Duration::from_millis(10)));
    assert!(stream.has_timed_out(Duration::new(0, 10_000_001)));
    stream.set_timeout(Duration::from_millis(1_000_000));
    assert!(!stream.has_contact_timeout());
    assert!(!stream.is_last_contact_more_than(Duration::from_millis(1_000_000)));
    assert!(!queued::is_contact_more_than(Duration::new(0, 10_999_999), 10));
    assert!(queued::is_contact_more_than(Duration::new(0, 11_000_000), 10));
}

#[test]
fn the_task_that_writes() {
    let mut task = SinkTask::new();
    let ask = SinkEvent::Asked;
    assert!(matches!(
        task.next(ask(NetConnectionSinkMessage::CloseCode(5))),
        SinkCommand::Receive
    ));
    let send = NetConnectionSink::<()>::send_message(message(1), true);
    assert!(matches!(task.next(ask(send)), SinkCommand::Feed(_)));
    assert!(matches!(task.next(SinkEvent::Done), SinkCommand::Flush));
    assert!(matches!(task.next(SinkEvent::Done), SinkCommand::Receive));
    let send = NetConnectionSink::<()>::send_message(message(1), false);
    assert!(matches!(task.next(ask(send)), SinkCommand::Feed(_)));
    assert!(matches!(task.next(SinkEvent::Done), SinkCommand::Receive));
    let send = NetConnectionSink::<()>::try_send_message(message(3), true);
    assert!(matches!(send, NetConnectionSinkMessage::Send(m, true) if m.source_netid == 3));
    assert!(matches!(task.next(ask(NetConnectionSink::<()>::flush())), SinkCommand::Flush));
    let code = NetConnectionSink::<()>::set_close_code(9);
    assert!(matches!(task.next(ask(code)), SinkCommand::Receive));
    match task.next(SinkEvent::Failed) {
        SinkCommand::Finish(m) => {
            assert_eq!((m.source_netid, m.destination_netid), (2, 0));
            assert_eq!(&m.data[..], &[1, 0, 0, 1, 9, 0, 0, 0]);
        }
        _ => panic!("not finished"),
    }
    assert!(matches!(SinkTask::new().next(SinkEvent::QueueEnded), SinkCommand::Finish(_)));
}

#[test]
fn the_tasks_around_a_queue() {
    match queued::stream_task_next(queued::StreamEvent::Message(message(4))) {
        queued::StreamCommand::Forward(NetConnectionRead::Data(m)) => assert_eq!(m.source_netid, 4),
        _ => panic!("not forwarded"),
    }
    assert!(matches!(
        queued::stream_task_next(queued::StreamEvent::Queued),
        queued::StreamCommand::Read
    ));
    assert!(matches!(
        queued::stream_task_next(queued::StreamEvent::QueueClosed),
        queued::StreamCommand::Finish
    ));

    assert!(matches!(
        queued::read_queued(queued::Received::Disconnected),
        (NetConnectionRead::Closed, true)
    ));
    assert!(matches!(
        queued::read_queued(queued::Received::Read(NetConnectionRead::Closed)),
        (NetConnectionRead::Closed, true)
    ));
    assert!(matches!(
        queued::read_queued(queued::Received::Empty),
        (NetConnectionRead::Empty, false)
    ));

    let mut code = 0;
    let mut next = |m| queued::sink_task_next(&mut code, queued::SinkEvent::Asked(m));
    assert!(matches!(
        next(queued::NetConnectionSinkMessage::CloseCode(8)),
        queued::SinkCommand::Receive
    ));
    assert!(matches!(
        next(queued::send_request(message(1), true)),
        queued::SinkCommand::Send(_)
    ));
    assert!(matches!(
        next(queued::send_request(message(1), false)),
        queued::SinkCommand::Feed(_)
    ));
    assert!(matches!(
        queued::sink_task_next(&mut code, queued::SinkEvent::Finished),
        queued::SinkCommand::Receive
    ));
    match queued::sink_task_next(&mut code, queued::SinkEvent::QueueEnded) {
        queued::SinkCommand::Finish(m) => assert_eq!(m.data[4], 8),
        _ => panic!("not finished"),
    }
}

#[test]
fn requests_to_a_connection() {
    type Sink = NetConnectionSink<()>;
    assert!(Sink::try_send(false, Queued::Taken).is_ok());
    assert!(matches!(Sink::try_send(false, Queued::Full), Err(NetConnectionWrite::Full)));
    assert!(matches!(Sink::try_send(false, Queued::Closed), Err(NetConnectionWrite::Closed)));
    assert!(matches!(Sink::try_send(true, Queued::Taken), Err(NetConnectionWrite::Closed)));
}

#[test]
fn connections() {
    let mut conn = NetConnection::from_streams("TCP(x)".to_string(), 1u8, 2u8);
    assert_eq!(conn.get_netid(), 0);
    assert_eq!(
        conn.to_text(Duration::from_millis(12)),
        "NetConnection { NETID: 0, Sink: TCP(x), Seen: 12ms }"
    );
    conn.set_netid(70);
    assert_eq!(conn.clone_sink().netid, 70);
    assert_eq!(conn.to_text(Duration::from_millis(12)), "NetConnection { NETID: 70, Seen: 12ms }");
    assert_eq!(conn.sink().to_text(), "NCSink { NETID: 70, Info: TCP(x) }");
    conn.stream_mut().set_timeout(Duration::from_millis(3));
    assert_eq!(conn.stream().timeout.as_millis(), 3);
    let m = conn
        .sink()
        .send_relay_message(NetRelayMessage::RelayAddPeer(5), Ok(String::new()))
        .unwrap();
    assert_eq!((m.source_netid, m.destination_netid, m.compressed), (2, 70, false));
    assert_eq!(&m.data[..], &[4, 0, 2, 1, 5, 0, 0, 0, 0, 0, 0, 0]);
    let refused = conn.sink().send_relay_message(NetRelayMessage::PeerLeaveRoom, Ok(String::new()));
    assert!(matches!(refused, Err(NetConnectionWrite::IO(_))));
    let (sink, stream) = conn.into_streams();
    assert_eq!((sink.queue, stream.stream), (1, 2));
    assert_eq!(
        message(5).to_text(),
        "NetConnectionMessage { Src/Dst: 5 -> 2, Compressed: false DataLen: 3 }"
    );
}
