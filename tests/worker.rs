use sharder::session::{classify, CloseFrame, Disposition, Frame, TransportError};
use sharder::worker::{Command, Event, GatewayAction, Processing, ShardWorker};

fn failed(error: TransportError, resume_token_held: bool) -> Event {
    Event::Failed { error, resume_token_held }
}

fn closed(code: u16, reason: &str) -> TransportError {
    TransportError::ConnectionClosed(Some(CloseFrame { code, reason: reason.to_string() }))
}

fn count_respawns(commands: &[Command]) -> usize {
    commands.iter().filter(|c| matches!(c, Command::Respawn(_))).count()
}

#[test]
fn connection_closed_with_resume_token_resumes() {
    // Shard 3 holds the resume token "abc"; the peer closes with code 1001.
    let token = "abc";
    let mut w = ShardWorker::new(3);
    let mut out = Vec::new();
    let c = w.step(failed(closed(1001, "going away"), !token.is_empty()));
    assert!(matches!(c, Command::Recover));
    out.push(c);
    let c = w.step(Event::Recovered(true));
    assert!(matches!(c, Command::AwaitFrame));
    out.push(c);
    assert!(!w.is_terminated());
    assert_eq!(count_respawns(&out), 0);
    // The fresh stream is read as before.
    let c = w.step(Event::Received(Frame::Binary(vec![1, 2])));
    assert!(matches!(c, Command::Process(ref b) if b == &vec![1, 2]));
}

#[test]
fn capacity_error_without_token_continues() {
    let mut w = ShardWorker::new(7);
    let c = w.step(failed(TransportError::Capacity("frame too large".to_string()), false));
    assert!(matches!(c, Command::AwaitFrame));
    assert!(!w.is_terminated());
    let c = w.step(Event::Received(Frame::Text("{}".to_string())));
    assert!(matches!(c, Command::Process(ref b) if b == &b"{}".to_vec()));
}

#[test]
fn identify_keeps_stream_and_forwards() {
    let mut w = ShardWorker::new(5);
    let c = w.step(Event::Received(Frame::Binary(vec![9, 8, 7])));
    assert!(matches!(c, Command::Process(_)));
    let c = w.step(Event::Processed(Processing::Action(GatewayAction::Identify)));
    assert!(matches!(c, Command::Identify));
    let c = w.step(Event::Dispatched(true));
    match c {
        Command::Forward(bytes) => assert_eq!(bytes, vec![9, 8, 7, 5, 0]),
        other => panic!("unexpected command {:?}", other),
    }
    assert!(!w.is_terminated());
    assert_eq!(w.shard_id(), 5);
}

#[test]
fn reconnect_terminates_once_with_or_without_token() {
    for token in [false, true] {
        let mut w = ShardWorker::new(11);
        let mut out = Vec::new();
        out.push(w.step(Event::Received(Frame::Binary(vec![1]))));
        out.push(w.step(Event::Processed(Processing::Action(GatewayAction::Reconnect))));
        assert!(matches!(out[1], Command::Respawn(11)));
        assert!(w.is_terminated());
        // Nothing that follows asks for a second respawn.
        out.push(w.step(failed(TransportError::StreamEnded, token)));
        out.push(w.step(Event::Recovered(false)));
        out.push(w.step(Event::Received(Frame::Binary(vec![2]))));
        assert_eq!(count_respawns(&out), 1);
    }
}

#[test]
fn exhausted_without_token_terminates_without_resume() {
    let errors = vec![
        TransportError::StreamEnded,
        closed(1000, "bye"),
        TransportError::Protocol("Connection reset without closing handshake".to_string()),
    ];
    for e in errors {
        let mut w = ShardWorker::new(2);
        let c = w.step(failed(e, false));
        assert!(matches!(c, Command::Respawn(2)));
        assert!(w.is_terminated());
    }
}

#[test]
fn failed_resume_terminates_once() {
    let mut w = ShardWorker::new(4);
    let c = w.step(failed(TransportError::StreamEnded, true));
    assert!(matches!(c, Command::Recover));
    let c = w.step(Event::Recovered(false));
    assert!(matches!(c, Command::Respawn(4)));
    assert!(w.is_terminated());
    let c = w.step(Event::Recovered(false));
    assert!(matches!(c, Command::Idle));
}

#[test]
fn ping_and_pong_are_dropped() {
    let mut w = ShardWorker::new(1);
    assert!(matches!(w.step(Event::Received(Frame::Ping(vec![1]))), Command::AwaitFrame));
    assert!(matches!(w.step(Event::Received(Frame::Pong(vec![1]))), Command::AwaitFrame));
    assert!(!w.is_terminated());
}

#[test]
fn forwarded_frame_ends_with_shard_id() {
    let mut w = ShardWorker::new(0x0102);
    w.step(Event::Received(Frame::Text("hé".to_string())));
    match w.step(Event::Processed(Processing::NoAction)) {
        Command::Forward(bytes) => assert_eq!(bytes, vec![b'h', 0xc3, 0xa9, 0x02, 0x01]),
        other => panic!("unexpected command {:?}", other),
    }
}

#[test]
fn undecodable_frame_is_skipped() {
    let mut w = ShardWorker::new(6);
    w.step(Event::Received(Frame::Binary(vec![0xff])));
    assert!(matches!(w.step(Event::Processed(Processing::Undecodable)), Command::AwaitFrame));
    assert!(!w.is_terminated());
}

#[test]
fn failed_reconnect_or_resume_terminates() {
    for action in [GatewayAction::Autoreconnect, GatewayAction::Resume] {
        let mut w = ShardWorker::new(8);
        w.step(Event::Received(Frame::Binary(vec![3])));
        let c = w.step(Event::Processed(Processing::Action(action)));
        match action {
            GatewayAction::Autoreconnect => assert!(matches!(c, Command::Autoreconnect)),
            _ => assert!(matches!(c, Command::Resume)),
        }
        assert!(matches!(w.step(Event::Dispatched(false)), Command::Respawn(8)));
        assert!(w.is_terminated());
        assert!(matches!(w.step(Event::Received(Frame::Binary(vec![4]))), Command::Idle));
    }
}

#[test]
fn failed_identify_drops_frame_and_continues() {
    let mut w = ShardWorker::new(12);
    w.step(Event::Received(Frame::Binary(vec![3])));
    let c = w.step(Event::Processed(Processing::Action(GatewayAction::Identify)));
    assert!(matches!(c, Command::Identify));
    assert!(matches!(w.step(Event::Dispatched(false)), Command::AwaitFrame));
    assert!(!w.is_terminated());
}

#[test]
fn successful_resume_forwards_frame() {
    let mut w = ShardWorker::new(258);
    w.step(Event::Received(Frame::Binary(vec![6])));
    let c = w.step(Event::Processed(Processing::Action(GatewayAction::Resume)));
    assert!(matches!(c, Command::Resume));
    match w.step(Event::Dispatched(true)) {
        Command::Forward(bytes) => assert_eq!(bytes, vec![6, 2, 1]),
        other => panic!("unexpected command {:?}", other),
    }
}

#[test]
fn unexpected_event_is_ignored() {
    let mut w = ShardWorker::new(9);
    assert!(matches!(w.step(Event::Dispatched(true)), Command::Idle));
    assert!(matches!(w.step(Event::Received(Frame::Binary(vec![4]))), Command::Process(_)));
}

#[test]
fn classification_table() {
    assert_eq!(classify(&TransportError::StreamEnded), Disposition::ReconnectOrResume);
    assert_eq!(classify(&TransportError::Capacity("x".to_string())), Disposition::Continue);
    assert_eq!(classify(&closed(4000, "")), Disposition::ReconnectOrResume);
    assert_eq!(classify(&TransportError::ConnectionClosed(None)), Disposition::Continue);
    assert_eq!(
        classify(&TransportError::Protocol("Connection reset without closing handshake".to_string())),
        Disposition::ReconnectOrResume
    );
    assert_eq!(
        classify(&TransportError::Protocol("Connection reset without closing handshake.".to_string())),
        Disposition::Continue
    );
    assert_eq!(classify(&TransportError::Protocol("bad opcode".to_string())), Disposition::Continue);
    assert_eq!(classify(&TransportError::Other), Disposition::Continue);
}

#[test]
fn other_protocol_error_continues_with_token() {
    let mut w = ShardWorker::new(10);
    let c = w.step(failed(TransportError::Protocol("bad opcode".to_string()), true));
    assert!(matches!(c, Command::AwaitFrame));
    let c = w.step(failed(TransportError::Other, false));
    assert!(matches!(c, Command::AwaitFrame));
    assert!(!w.is_terminated());
}

#[test]
fn frames_are_forwarded_in_order_once_each() {
    let mut w = ShardWorker::new(1);
    let mut pushed = Vec::new();
    let script = vec![
        (Frame::Binary(vec![10]), Processing::NoAction),
        (Frame::Ping(vec![0]), Processing::NoAction),
        (Frame::Binary(vec![11]), Processing::Undecodable),
        (Frame::Text("b".to_string()), Processing::NoAction),
        (Frame::Binary(vec![12]), Processing::NoAction),
    ];
    for (frame, verdict) in script {
        if let Command::Process(_) = w.step(Event::Received(frame)) {
            if let Command::Forward(bytes) = w.step(Event::Processed(verdict)) {
                pushed.push(bytes);
            }
        }
    }
    assert_eq!(pushed, vec![vec![10, 1, 0], vec![b'b', 1, 0], vec![12, 1, 0]]);
}
