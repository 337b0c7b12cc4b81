use tictactoe::entities::{Inbound, Move};
use tictactoe::frame::{
    decode_move, encode_frame, encode_move, frame_length, hello_payload, is_hello, read_frame,
    WireError,
};
use tictactoe::session::{Next, Phase, Role, Session, SessionEvent};

#[test]
fn frame_has_big_endian_length() {
    let f = encode_frame(b"2 1");
    assert_eq!(f, vec![0, 0, 0, 0, 0, 0, 0, 3, b'2', b' ', b'1']);
    assert_eq!(frame_length(&f[..8]), 3);
    assert_eq!(frame_length(&[1, 2, 3, 4, 5, 6, 7, 8]), 0x0102030405060708);
    assert_eq!(encode_frame(b""), vec![0u8; 8]);
}

#[test]
fn read_frame_takes_one_frame() {
    let mut bytes = encode_frame(b"hello");
    bytes.extend_from_slice(&encode_frame(b"0 2"));
    let (p, used) = read_frame(&bytes).unwrap();
    assert_eq!(p, b"hello".to_vec());
    assert_eq!(used, 13);
    let (q, used2) = read_frame(&bytes[used..]).unwrap();
    assert_eq!(q, b"0 2".to_vec());
    assert_eq!(used2, 11);
}

#[test]
fn short_stream_is_connection_error() {
    assert_eq!(read_frame(&[0, 0, 0]), Err(WireError::ConnectionError));
    assert_eq!(read_frame(&[0, 0, 0, 0, 0, 0, 0, 4, b'a']), Err(WireError::ConnectionError));
    assert_eq!(read_frame(&[]), Err(WireError::ConnectionError));
}

#[test]
fn move_round_trips_through_frame() {
    for c in 0..3 {
        for r in 0..3 {
            let m = Move { col: c, row: r };
            let f = encode_frame(&encode_move(m));
            let (p, used) = read_frame(&f).unwrap();
            assert_eq!(used, f.len());
            assert_eq!(decode_move(&p), Ok(m));
        }
    }
    assert_eq!(encode_move(Move { col: 2, row: 1 }), b"2 1".to_vec());
}

#[test]
fn malformed_move_is_protocol_error() {
    for bad in [&b"3 1"[..], b"1,1", b"11", b"1 1 ", b"", b"a b", b"-1 0"] {
        assert_eq!(decode_move(bad), Err(WireError::ProtocolError));
    }
}

#[test]
fn hello_is_exact() {
    assert_eq!(hello_payload(), b"hello".to_vec());
    assert!(is_hello(b"hello"));
    assert!(!is_hello(b"hello "));
    assert!(!is_hello(b"Hello"));
    assert!(!is_hello(b""));
}

#[test]
fn initiator_rejects_bad_handshake() {
    let mut s = Session::new(Role::Initiator);
    let a = s.step(SessionEvent::Connected);
    assert_eq!(a.next, Next::ReadPeer);
    assert!(a.send.is_none());
    let a = s.step(SessionEvent::Received(b"howdy".to_vec()));
    assert_eq!(s.phase, Phase::Failed(WireError::ProtocolError));
    assert_eq!(a.next, Next::Halt);
    assert!(a.send.is_none());
    assert!(a.deliver.is_none());
    // Failed is final: a later hello does not revive it.
    let a = s.step(SessionEvent::Received(hello_payload()));
    assert_eq!(s.phase, Phase::Failed(WireError::ProtocolError));
    assert_eq!(a.next, Next::Halt);
    s.step(SessionEvent::Local(Move { col: 0, row: 0 }));
    assert_eq!(s.phase, Phase::Failed(WireError::ProtocolError));
}

#[test]
fn link_failure_fails_session() {
    let mut s = Session::new(Role::Responder);
    s.step(SessionEvent::Connected);
    s.step(SessionEvent::Received(hello_payload()));
    assert_eq!(s.phase, Phase::AwaitPeer);
    let a = s.step(SessionEvent::LinkFailed);
    assert_eq!(s.phase, Phase::Failed(WireError::ConnectionError));
    assert_eq!(a.next, Next::Halt);
}

#[test]
fn bad_move_payload_fails_session() {
    let mut s = Session::new(Role::Responder);
    s.step(SessionEvent::Connected);
    s.step(SessionEvent::Received(hello_payload()));
    s.step(SessionEvent::Received(b"9 9".to_vec()));
    assert_eq!(s.phase, Phase::Failed(WireError::ProtocolError));
}

/// Hands the frame of `payload` across the link and reads it on the far side.
fn cross(payload: Option<Vec<u8>>) -> Vec<u8> {
    let f = encode_frame(&payload.unwrap());
    let (p, used) = read_frame(&f).unwrap();
    assert_eq!(used, f.len());
    p
}

#[test]
fn rounds_keep_order_both_ways() {
    let mut i = Session::new(Role::Initiator);
    let mut r = Session::new(Role::Responder);
    let ar = r.step(SessionEvent::Connected);
    assert_eq!(ar.send, Some(b"hello".to_vec()));
    i.step(SessionEvent::Connected);
    let ai = i.step(SessionEvent::Received(cross(ar.send)));
    assert_eq!(ai.deliver, Some(Inbound::Ready));
    assert_eq!(ai.next, Next::WaitLocal);
    let ar = r.step(SessionEvent::Received(cross(ai.send)));
    assert_eq!(ar.deliver, Some(Inbound::Ready));
    assert_eq!(ar.next, Next::ReadPeer);

    let mi = [Move { col: 0, row: 0 }, Move { col: 1, row: 1 }, Move { col: 2, row: 2 }];
    let mr = [Move { col: 1, row: 0 }, Move { col: 2, row: 0 }, Move { col: 0, row: 2 }];
    let mut sent_by_i = Vec::new();
    let mut got_by_r = Vec::new();
    let mut sent_by_r = Vec::new();
    let mut got_by_i = Vec::new();
    for k in 0..3 {
        let a1 = i.step(SessionEvent::Local(mi[k]));
        assert_eq!(a1.next, Next::ReadPeer);
        sent_by_i.push(mi[k]);
        let a2 = r.step(SessionEvent::Received(cross(a1.send)));
        assert_eq!(a2.next, Next::WaitLocal);
        got_by_r.push(a2.deliver.unwrap());
        let a3 = r.step(SessionEvent::Local(mr[k]));
        sent_by_r.push(mr[k]);
        let a4 = i.step(SessionEvent::Received(cross(a3.send)));
        got_by_i.push(a4.deliver.unwrap());
    }
    assert_eq!(i.phase, Phase::AwaitLocal);
    assert_eq!(r.phase, Phase::AwaitPeer);
    assert_eq!(sent_by_i.len(), got_by_r.len());
    assert_eq!(sent_by_r.len(), got_by_i.len());
    for k in 0..3 {
        assert_eq!(got_by_r[k], Inbound::Move(sent_by_i[k]));
        assert_eq!(got_by_i[k], Inbound::Move(sent_by_r[k]));
    }
}

#[test]
fn move_out_of_turn_fails_session() {
    let mut i = Session::new(Role::Initiator);
    i.step(SessionEvent::Connected);
    i.step(SessionEvent::Received(hello_payload()));
    let a = i.step(SessionEvent::Received(b"1 1".to_vec()));
    assert_eq!(a.next, Next::Halt);
    assert_eq!(i.phase, Phase::Failed(WireError::ProtocolError));
}
