use wuhost::NativeEvent;
use wuhost::NativeEventKind;
use wuhost::WuClient;
use wuhost::WuError;
use wuhost::WuEvent;
use wuhost::WuHost;
use wuhost::WuServeTimeout;

fn record(kind: NativeEventKind, token: u64, payload: Vec<u8>) -> NativeEvent {
    NativeEvent { kind, token, payload }
}

#[test]
fn join_yields_handle_and_registers_it() {
    let mut host = WuHost::new();
    let r = host.translate_event(record(NativeEventKind::ClientJoin, 42, vec![]));
    match r {
        Ok(WuEvent::ClientJoin(c)) => {
            assert_eq!(c.id(), 1);
            assert_eq!(host.find_client(c), Some(42));
        }
        other => panic!("expected a join event, got {:?}", other),
    }
}

#[test]
fn two_joins_same_token_same_handle() {
    let mut host = WuHost::new();
    let a = host.translate_event(record(NativeEventKind::ClientJoin, 8, vec![]));
    let b = host.translate_event(record(NativeEventKind::ClientJoin, 8, vec![]));
    match (a, b) {
        (Ok(WuEvent::ClientJoin(x)), Ok(WuEvent::ClientJoin(y))) => assert_eq!(x, y),
        other => panic!("expected two join events, got {:?}", other),
    }
}

#[test]
fn leave_retires_handle_before_it_is_observed() {
    let mut host = WuHost::new();
    host.translate_event(record(NativeEventKind::ClientJoin, 8, vec![])).unwrap();
    let r = host.translate_event(record(NativeEventKind::ClientLeave, 8, vec![]));
    match r {
        Ok(WuEvent::ClientLeave(c)) => {
            assert_eq!(c.id(), 1);
            assert_eq!(host.find_client(c), None);
        }
        other => panic!("expected a leave event, got {:?}", other),
    }
}

#[test]
fn rejoin_after_leave_gets_fresh_handle() {
    let mut host = WuHost::new();
    host.translate_event(record(NativeEventKind::ClientJoin, 8, vec![])).unwrap();
    host.translate_event(record(NativeEventKind::ClientLeave, 8, vec![])).unwrap();
    let r = host.translate_event(record(NativeEventKind::ClientJoin, 8, vec![]));
    match r {
        Ok(WuEvent::ClientJoin(c)) => {
            assert_eq!(c.id(), 2);
            assert_eq!(host.find_client(WuClient(1)), None);
        }
        other => panic!("expected a join event, got {:?}", other),
    }
}

#[test]
fn unknown_handle_is_a_silent_noop() {
    let mut host = WuHost::new();
    host.translate_event(record(NativeEventKind::ClientJoin, 3, vec![])).unwrap();
    // A send decision for a stale or never-issued handle names no token,
    // so the shell never contacts the engine.
    assert_eq!(host.find_client(WuClient(55)), None);
    assert_eq!(host.remove_client(WuClient(55)), None);
    // The live client is untouched.
    assert_eq!(host.find_client(WuClient(1)), Some(3));
}

#[test]
fn remove_client_returns_token_once() {
    let mut host = WuHost::new();
    host.translate_event(record(NativeEventKind::ClientJoin, 3, vec![])).unwrap();
    assert_eq!(host.remove_client(WuClient(1)), Some(3));
    assert_eq!(host.remove_client(WuClient(1)), None);
}

#[test]
fn invalid_utf8_text_yields_decode_error() {
    let mut host = WuHost::new();
    let r = host.translate_event(record(NativeEventKind::TextData, 5, vec![0xFF, 0xFE]));
    assert_eq!(r, Err(WuError::DecodeError(WuClient(1))));
    // The decode error is recoverable: the next event is handled normally.
    let next = host.translate_event(record(NativeEventKind::BinaryData, 5, vec![1]));
    assert!(matches!(next, Ok(WuEvent::BinaryData(_, _))));
}

#[test]
fn valid_text_is_decoded_exactly() {
    let mut host = WuHost::new();
    let text = "héllo wörld ✓";
    let r = host.translate_event(record(NativeEventKind::TextData, 5, text.as_bytes().to_vec()));
    match r {
        Ok(WuEvent::TextData(c, s)) => {
            assert_eq!(c.id(), 1);
            assert_eq!(s, text);
        }
        other => panic!("expected a text event, got {:?}", other),
    }
}

#[test]
fn binary_payload_is_byte_for_byte() {
    let mut host = WuHost::new();
    let payload: Vec<u8> = (0..=255).collect();
    let r = host.translate_event(record(NativeEventKind::BinaryData, 5, payload.clone()));
    match r {
        Ok(WuEvent::BinaryData(_, b)) => assert_eq!(b, payload),
        other => panic!("expected a binary event, got {:?}", other),
    }
}

#[test]
fn unrecognized_tag_is_a_contract_violation() {
    let mut host = WuHost::new();
    let r = host.translate_event(record(NativeEventKind::Unrecognized(77), 5, vec![]));
    assert_eq!(r, Err(WuError::EngineContractViolation(77)));
    // Nothing was registered for the token.
    assert_eq!(host.find_client(WuClient(1)), None);
}

#[test]
fn leave_for_unknown_token_spends_an_identifier() {
    let mut host = WuHost::new();
    let r = host.translate_event(record(NativeEventKind::ClientLeave, 9, vec![]));
    assert_eq!(
        r.map(|e| match e {
            WuEvent::ClientLeave(c) => c.id(),
            _ => panic!("expected a leave event"),
        }),
        Ok(1)
    );
    assert_eq!(host.find_client(WuClient(1)), None);
    assert_eq!(host.issued_handles(), 1);
}

#[test]
fn ten_thousand_session_cycles_never_reuse_a_handle() {
    let mut host = WuHost::new();
    let mut last: u32 = 0;
    for round in 0..10_000u64 {
        // The engine is free to hand back the same token value each time.
        let r = host.translate_event(record(NativeEventKind::ClientJoin, 0xAB, vec![]));
        let id = match r {
            Ok(WuEvent::ClientJoin(c)) => c.id(),
            other => panic!("round {}: expected a join event, got {:?}", round, other),
        };
        assert!(id > last, "round {}: handle {} reused", round, id);
        last = id;
        host.translate_event(record(NativeEventKind::ClientLeave, 0xAB, vec![])).unwrap();
    }
}

#[test]
fn timeout_policies_encode_as_engine_expects() {
    assert_eq!(WuServeTimeout::Block.timeout_millis(), -1);
    assert_eq!(WuServeTimeout::Immediate.timeout_millis(), 0);
    assert_eq!(WuServeTimeout::BlockForMilliseconds(250).timeout_millis(), 250);
}
