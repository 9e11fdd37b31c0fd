use iot_driver::depth::{
    answer, decode_frame, depth_support, encode_entries, encode_error, encode_event, encode_snapshot,
    react, react_to_batch, search_depth_device, serve_step, transport_type_name, ClientAction,
    ClientInput, ClientStep, DepthCache, DepthEvent, DepthFrame, DepthSearch, SockError,
    TransportType, CLOSE, ERROR_BAD_COMMAND, ERROR_NO_DEVICE, PING, QUERY,
};

fn entry(key_index: u8, depth_raw: u16) -> DepthEvent {
    DepthEvent {
        key_index,
        depth_raw,
    }
}

#[test]
fn frames_have_their_bytes() {
    assert_eq!(encode_event(entry(7, 0x1234)), vec![0x44, 7, 0x34, 0x12]);
    assert_eq!(encode_error(ERROR_NO_DEVICE), vec![0x45, 2]);
    assert_eq!(
        encode_entries(&[entry(1, 2), entry(3, 0x400)]),
        vec![0x53, 2, 1, 2, 0, 3, 0, 4]
    );
    assert_eq!(DepthEvent::from_le_raw([9, 0xFF, 1]), entry(9, 0x1FF));
}

#[test]
fn frames_are_read_back_one_by_one() {
    let mut stream = encode_entries(&[entry(1, 2), entry(3, 4)]);
    stream.extend(encode_event(entry(5, 6)));
    stream.extend(encode_error(1));
    let (frame, used) = decode_frame(&stream).unwrap();
    assert_eq!(frame, DepthFrame::Snapshot(vec![entry(1, 2), entry(3, 4)]));
    assert_eq!(used, 8);
    let (frame, n) = decode_frame(&stream[used..]).unwrap();
    assert_eq!(frame, DepthFrame::Event(entry(5, 6)));
    let (frame, _) = decode_frame(&stream[used + n..]).unwrap();
    assert_eq!(frame, DepthFrame::Error(1));
    assert_eq!(decode_frame(&[0x7A, 1]), Some((DepthFrame::Unknown(0x7A), 1)));
    assert_eq!(decode_frame(&[]), None);
    assert_eq!(decode_frame(&[0x53, 2, 1, 2, 0]), None);
    assert_eq!(decode_frame(&[0x44, 1, 2]), None);
    assert_eq!(decode_frame(&[0x45]), None);
}

#[test]
fn the_cache_keeps_the_latest_depth() {
    let mut cache = DepthCache::new();
    assert!(cache.snapshot().is_empty());
    cache.update(4, 10);
    cache.update(9, 20);
    cache.update(4, 30);
    let mut all = cache.snapshot();
    all.sort_by_key(|e| e.key_index);
    assert_eq!(all, vec![entry(4, 30), entry(9, 20)]);
    let bytes = encode_snapshot(&cache);
    assert_eq!(bytes.len(), 8);
    assert_eq!(bytes[..2], [0x53, 2]);
}

#[test]
fn clients_are_answered_until_they_close() {
    assert_eq!(react(PING), ClientAction::Pong);
    assert_eq!(react(0x00), ClientAction::Reject);
    assert_eq!(
        react_to_batch(&[PING, QUERY, 1, CLOSE, PING]),
        vec![
            ClientAction::Pong,
            ClientAction::Snapshot,
            ClientAction::Reject,
            ClientAction::Close,
        ]
    );
}

#[test]
fn error_codes_are_named() {
    assert_eq!(SockError::from_code(ERROR_BAD_COMMAND), Ok(SockError::BadCommand));
    assert_eq!(SockError::from_code(2), Ok(SockError::NoDevice));
    assert_eq!(
        SockError::from_code(9),
        Err(String::from("unknown error code `9`"))
    );
}

#[test]
fn the_first_device_that_opens_feeds_depths() {
    let devices = [
        TransportType::Bluetooth,
        TransportType::HidDongle,
        TransportType::HidWired,
    ];
    let failed = || Err(String::from("busy"));
    assert!(matches!(search_depth_device(&devices, &[]), DepthSearch::Try(1)));
    assert!(matches!(search_depth_device(&devices, &[Ok(())]), DepthSearch::Found(1)));
    assert!(matches!(search_depth_device(&devices, &[failed()]), DepthSearch::Try(2)));
    match search_depth_device(&devices, &[failed(), failed()]) {
        DepthSearch::Failed(m) => {
            assert_eq!(m, "no magnetism-capable keyboard found: busy");
        }
        _ => panic!("still searching"),
    }
    match search_depth_device(&devices[..1], &[]) {
        DepthSearch::Failed(m) => assert_eq!(
            m,
            "no magnetism-capable keyboard found: no candidate devices found"
        ),
        _ => panic!("still searching"),
    }
    assert_eq!(
        depth_support(false),
        Err(String::from("device has no magnetism support"))
    );
    assert_eq!(depth_support(true), Ok(()));
    assert_eq!(transport_type_name(TransportType::HidDongle), "dongle");
}

#[test]
fn each_command_gets_its_answer() {
    let mut cache = DepthCache::new();
    cache.update(7, 0x0102);
    assert_eq!(answer(react(PING), &cache), Some(vec![b'O']));
    assert_eq!(answer(react(QUERY), &cache), Some(vec![b'S', 1, 7, 2, 1]));
    assert_eq!(answer(react(b'?'), &cache), Some(vec![b'E', ERROR_BAD_COMMAND]));
    assert_eq!(answer(react(CLOSE), &cache), None);
}

#[test]
fn a_client_is_served_step_by_step() {
    match serve_step(ClientInput::Depth(entry(3, 0x0405))) {
        ClientStep::Send(bytes) => assert_eq!(bytes, vec![b'D', 3, 5, 4]),
        _ => panic!("an event is sent on"),
    }
    assert!(matches!(serve_step(ClientInput::Lagged), ClientStep::Ignore));
    match serve_step(ClientInput::Bytes(vec![PING, CLOSE, QUERY])) {
        ClientStep::Commands(list) => {
            assert_eq!(list, react_to_batch(&[PING, CLOSE, QUERY]));
            assert_eq!(list[0], react(PING));
        }
        _ => panic!("bytes are commands"),
    }
    assert!(matches!(serve_step(ClientInput::Disconnected), ClientStep::End(Ok(()))));
    assert!(matches!(serve_step(ClientInput::Shutdown), ClientStep::End(Ok(()))));
    match serve_step(ClientInput::ChannelClosed) {
        ClientStep::SendAndFail(bytes, e) => {
            assert_eq!(bytes, vec![0x45, ERROR_NO_DEVICE]);
            assert_eq!(e, "event channel closed");
        }
        _ => panic!("no more events is an error"),
    }
    match serve_step(ClientInput::ReadFailed(String::from("broken pipe"))) {
        ClientStep::End(Err(e)) => assert_eq!(e, "read: broken pipe"),
        _ => panic!("a failed read is an error"),
    }
}
