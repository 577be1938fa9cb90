use webcam_direct::app_data::MobileSchema;
use webcam_direct::ble_cmd_api::{
    CmdApi, CommandReq, DataChunk, PubSubTopic, QueryApi, QueryReq, SubReq,
};
use webcam_direct::ble_server::{BleServerCommHandler, CommandStep};
use webcam_direct::mobile_comm::{CommError, SessionState, VDeviceEntry};

const HOST_INFO: &[u8] = br#"{"id":"h1","name":"host","connection_type":"WLAN"}"#;

fn whole(kind: CmdApi, bytes: &[u8]) -> CommandReq {
    CommandReq { cmd_type: kind, payload: DataChunk { remain_len: 0, buffer: bytes.to_vec() } }
}

fn read_host_info(h: &mut BleServerCommHandler, addr: &str, max: usize) -> Vec<DataChunk> {
    let query = QueryReq { query_type: QueryApi::HostInfo, max_buffer_len: max };
    let mut chunks = Vec::new();
    loop {
        let c = h.handle_query(addr, &query, HOST_INFO);
        let last = c.remain_len == 0;
        chunks.push(c);
        if last {
            return chunks;
        }
    }
}

fn mobile() -> MobileSchema {
    MobileSchema { id: "m1".to_string(), name: "phone".to_string() }
}

/// Brings `addr` to the registered state.
fn register(h: &mut BleServerCommHandler, addr: &str) {
    read_host_info(h, addr, 16);
    match h.handle_command(addr, &whole(CmdApi::RegisterMobile, b"{}")) {
        Ok(CommandStep::StoreMobile(_)) => {}
        other => panic!("unexpected {:?}", other),
    }
    h.sessions_mut().mobile_registered(addr, true).unwrap();
    match h.handle_command(addr, &whole(CmdApi::MobilePnpId, b"m1")) {
        Ok(CommandStep::LookupMobile(id)) => assert_eq!(id, b"m1".to_vec()),
        other => panic!("unexpected {:?}", other),
    }
    h.sessions_mut().mobile_identified(addr, Some(mobile())).unwrap();
}

fn devices() -> Vec<VDeviceEntry> {
    vec![
        VDeviceEntry { camera: "front".to_string(), handle: 10, sdp_answer: "v=0 front".to_string() },
        VDeviceEntry { camera: "back".to_string(), handle: 11, sdp_answer: "v=0 back".to_string() },
        VDeviceEntry { camera: "wide".to_string(), handle: 12, sdp_answer: "v=0 wide".to_string() },
    ]
}

#[test]
fn full_session_reaches_ready_to_stream() {
    let mut h = BleServerCommHandler::new(5000);
    let addr = "AA:BB:CC:DD:EE:FF";
    let chunks = read_host_info(&mut h, addr, 16);
    let joined: Vec<u8> = chunks.iter().flat_map(|c| c.buffer.clone()).collect();
    assert_eq!(joined, HOST_INFO.to_vec());
    assert!(matches!(h.sessions_ref().state(addr), Some(SessionState::AwaitingMobileInfoWrite)));

    match h.handle_command(addr, &whole(CmdApi::RegisterMobile, b"record")) {
        Ok(CommandStep::StoreMobile(b)) => assert_eq!(b, b"record".to_vec()),
        other => panic!("unexpected {:?}", other),
    }
    h.sessions_mut().mobile_registered(addr, true).unwrap();
    assert!(matches!(h.sessions_ref().state(addr), Some(SessionState::AwaitingMobileIdWrite)));

    assert!(matches!(
        h.handle_command(addr, &whole(CmdApi::MobilePnpId, b"m1")),
        Ok(CommandStep::LookupMobile(_))
    ));
    h.sessions_mut().mobile_identified(addr, Some(mobile())).unwrap();
    assert_eq!(h.sessions_ref().registered_mobile(addr).unwrap().name, "phone");

    h.handle_sub(addr, &SubReq { topic: PubSubTopic::SdpCall, max_buffer_len: 20 }).unwrap();
    assert!(matches!(
        h.handle_command(addr, &whole(CmdApi::SdpOffer, b"offer")),
        Ok(CommandStep::BuildDevices(_))
    ));
    h.sessions_mut().devices_ready(addr, Some(devices())).unwrap();
    assert!(matches!(h.sessions_ref().state(addr), Some(SessionState::ReadyToStream { .. })));

    let answer = h.sessions_ref().get_sdp_answer(addr).unwrap();
    assert!(answer.camera_answer.iter().all(|c| c.format.resolution == (0, 0) && c.format.fps == 0));
    let again = h.sessions_ref().get_sdp_answer(addr).unwrap();
    assert_eq!(format!("{:?}", again), format!("{:?}", answer));
    let names: Vec<(String, String)> =
        answer.camera_answer.iter().map(|c| (c.name.clone(), c.sdp.clone())).collect();
    assert_eq!(
        names,
        vec![
            ("front".to_string(), "v=0 front".to_string()),
            ("back".to_string(), "v=0 back".to_string()),
            ("wide".to_string(), "v=0 wide".to_string()),
        ]
    );

    match h.handle_command(addr, &whole(CmdApi::MobileSdpResponse, b"answer")) {
        Ok(CommandStep::SdpResponse(b)) => assert_eq!(b, b"answer".to_vec()),
        other => panic!("unexpected {:?}", other),
    }
}

#[test]
fn register_before_host_info_is_wrong_state() {
    let mut h = BleServerCommHandler::new(5000);
    let addr = "AA:BB:CC:DD:EE:FF";
    let r = h.handle_command(addr, &whole(CmdApi::RegisterMobile, b"record"));
    assert!(matches!(r, Err(CommError::WrongState)));
    assert!(matches!(h.sessions_ref().state(addr), Some(SessionState::AwaitingHostInfoRead)));
}

#[test]
fn partly_read_host_info_does_not_advance() {
    let mut h = BleServerCommHandler::new(5000);
    let addr = "AA";
    let query = QueryReq { query_type: QueryApi::HostInfo, max_buffer_len: 8 };
    let c = h.handle_query(addr, &query, HOST_INFO);
    assert!(c.remain_len > 0);
    assert!(matches!(
        h.handle_command(addr, &whole(CmdApi::RegisterMobile, b"r")),
        Err(CommError::WrongState)
    ));
}

#[test]
fn two_peers_chunk_independently() {
    let mut h = BleServerCommHandler::new(5000);
    let a = "AA:BB:CC:DD:EE:FF";
    let b = "11:22:33:44:55:66";
    let data_a = vec![b'a'; 250];
    let data_b = vec![b'b'; 130];
    let qa = QueryReq { query_type: QueryApi::HostInfo, max_buffer_len: 100 };
    let qb = QueryReq { query_type: QueryApi::HostInfo, max_buffer_len: 40 };
    let mut got_a = Vec::new();
    let mut got_b = Vec::new();
    for _ in 0..4 {
        if got_a.last().map_or(true, |c: &DataChunk| c.remain_len > 0) {
            got_a.push(h.handle_query(a, &qa, &data_a));
        }
        if got_b.last().map_or(true, |c: &DataChunk| c.remain_len > 0) {
            got_b.push(h.handle_query(b, &qb, &data_b));
        }
    }
    let lens_a: Vec<(usize, usize)> = got_a.iter().map(|c| (c.buffer.len(), c.remain_len)).collect();
    let lens_b: Vec<(usize, usize)> = got_b.iter().map(|c| (c.buffer.len(), c.remain_len)).collect();
    assert_eq!(lens_a, vec![(100, 150), (100, 50), (50, 0)]);
    assert_eq!(lens_b, vec![(40, 90), (40, 50), (40, 10), (10, 0)]);
    assert!(got_a.iter().all(|c| c.buffer.iter().all(|&x| x == b'a')));
    assert!(got_b.iter().all(|c| c.buffer.iter().all(|&x| x == b'b')));
}

#[test]
fn disconnect_releases_devices_in_reverse_once() {
    let mut h = BleServerCommHandler::new(5000);
    let addr = "AA";
    let other = "BB";
    register(&mut h, addr);
    register(&mut h, other);
    h.sessions_mut().devices_ready(addr, Some(devices())).unwrap();

    assert_eq!(h.mobile_disconnected(addr), Ok(vec![12, 11, 10]));
    assert_eq!(h.mobile_disconnected(addr), Err(CommError::AddressNotFound));
    assert!(h.sessions_ref().state(addr).is_none());
    assert!(matches!(h.sessions_ref().state(other), Some(SessionState::Registered { .. })));
}

#[test]
fn disconnect_command_drops_the_session() {
    let mut h = BleServerCommHandler::new(5000);
    let addr = "AA";
    register(&mut h, addr);
    h.sessions_mut().devices_ready(addr, Some(devices())).unwrap();
    match h.handle_command(addr, &whole(CmdApi::MobileDisconnected, b"")) {
        Ok(CommandStep::Disconnected(handles)) => assert_eq!(handles, vec![12, 11, 10]),
        other => panic!("unexpected {:?}", other),
    }
    assert!(h.sessions_ref().state(addr).is_none());
}

#[test]
fn failed_store_leaves_state_for_retry() {
    let mut h = BleServerCommHandler::new(5000);
    let addr = "AA";
    read_host_info(&mut h, addr, 64);
    assert!(h.handle_command(addr, &whole(CmdApi::RegisterMobile, b"r")).is_ok());
    assert_eq!(
        h.sessions_mut().mobile_registered(addr, false),
        Err(CommError::CollaboratorFailure)
    );
    assert!(matches!(h.sessions_ref().state(addr), Some(SessionState::AwaitingMobileInfoWrite)));
    assert!(h.sessions_mut().mobile_registered(addr, true).is_ok());
}

#[test]
fn unknown_mobile_id_is_collaborator_failure() {
    let mut h = BleServerCommHandler::new(5000);
    let addr = "AA";
    read_host_info(&mut h, addr, 64);
    h.handle_command(addr, &whole(CmdApi::RegisterMobile, b"r")).unwrap();
    h.sessions_mut().mobile_registered(addr, true).unwrap();
    assert_eq!(h.sessions_mut().mobile_identified(addr, None), Err(CommError::CollaboratorFailure));
    assert!(matches!(h.sessions_ref().state(addr), Some(SessionState::AwaitingMobileIdWrite)));
}

#[test]
fn failed_device_build_stays_registered() {
    let mut h = BleServerCommHandler::new(5000);
    let addr = "AA";
    register(&mut h, addr);
    assert_eq!(h.sessions_mut().devices_ready(addr, None), Err(CommError::CollaboratorFailure));
    assert!(matches!(h.sessions_ref().state(addr), Some(SessionState::Registered { .. })));
}

#[test]
fn sdp_response_needs_ready_to_stream() {
    let mut h = BleServerCommHandler::new(5000);
    let addr = "AA";
    register(&mut h, addr);
    assert!(matches!(
        h.handle_command(addr, &whole(CmdApi::MobileSdpResponse, b"x")),
        Err(CommError::WrongState)
    ));
}

#[test]
fn subscription_rules() {
    let mut h = BleServerCommHandler::new(5000);
    let addr = "AA";
    let sub = SubReq { topic: PubSubTopic::SdpCall, max_buffer_len: 4 };
    assert_eq!(h.handle_sub(addr, &sub), Err(CommError::WrongState));
    assert!(matches!(h.handle_pub(PubSubTopic::SdpCall, b"hello"), Err(CommError::TopicNotFound)));
    register(&mut h, addr);
    let zero = SubReq { topic: PubSubTopic::SdpCall, max_buffer_len: 0 };
    assert_eq!(h.handle_sub(addr, &zero), Err(CommError::InvalidChunkSize));
    assert_eq!(h.handle_sub(addr, &sub), Ok(()));
    // The first subscription fixed the chunk size.
    let wider = SubReq { topic: PubSubTopic::SdpCall, max_buffer_len: 100 };
    assert_eq!(h.handle_sub(addr, &wider), Ok(()));
    let chunks = h.handle_pub(PubSubTopic::SdpCall, b"hello").unwrap();
    assert_eq!(
        chunks,
        vec![
            DataChunk { remain_len: 1, buffer: b"hell".to_vec() },
            DataChunk { remain_len: 0, buffer: b"o".to_vec() },
        ]
    );
}

#[test]
fn oversized_command_is_aborted() {
    let mut h = BleServerCommHandler::new(9999);
    let r = h.handle_command("AA", &whole(CmdApi::RegisterMobile, &vec![b'A'; 10000]));
    assert!(matches!(r, Err(CommError::BufferLimitExceeded)));
}

#[test]
fn incomplete_command_waits_for_more() {
    let mut h = BleServerCommHandler::new(5000);
    let addr = "AA";
    read_host_info(&mut h, addr, 64);
    let first = CommandReq {
        cmd_type: CmdApi::RegisterMobile,
        payload: DataChunk { remain_len: 3, buffer: b"abc".to_vec() },
    };
    assert!(matches!(h.handle_command(addr, &first), Ok(CommandStep::Incomplete)));
    match h.handle_command(addr, &whole(CmdApi::RegisterMobile, b"def")) {
        Ok(CommandStep::StoreMobile(b)) => assert_eq!(b, b"abcdef".to_vec()),
        other => panic!("unexpected {:?}", other),
    }
}

#[test]
fn sdp_answer_needs_ready_to_stream() {
    let mut h = BleServerCommHandler::new(5000);
    assert!(matches!(h.sessions_ref().get_sdp_answer("AA"), Err(CommError::AddressNotFound)));
    register(&mut h, "AA");
    assert!(matches!(h.sessions_ref().get_sdp_answer("AA"), Err(CommError::WrongState)));
}

#[test]
fn device_build_is_announced_to_subscribers() {
    let mut h = BleServerCommHandler::new(5000);
    let addr = "AA:BB:CC";
    register(&mut h, addr);
    let sub = SubReq { topic: PubSubTopic::SdpCall, max_buffer_len: 4 };
    h.handle_sub(addr, &sub).unwrap();
    let chunks = h.devices_ready(addr, Some(devices())).unwrap();
    assert_eq!(
        chunks,
        vec![
            DataChunk { remain_len: 4, buffer: b"AA:B".to_vec() },
            DataChunk { remain_len: 0, buffer: b"B:CC".to_vec() },
        ]
    );
    assert!(matches!(h.sessions_ref().state(addr), Some(SessionState::ReadyToStream { .. })));
}

#[test]
fn device_build_without_subscribers_announces_nothing() {
    let mut h = BleServerCommHandler::new(5000);
    register(&mut h, "AA");
    assert_eq!(h.devices_ready("AA", Some(devices())), Ok(vec![]));
    assert_eq!(h.devices_ready("AA", Some(devices())), Err(CommError::WrongState));
}

#[test]
fn failed_device_build_announces_nothing() {
    let mut h = BleServerCommHandler::new(5000);
    register(&mut h, "AA");
    h.handle_sub("AA", &SubReq { topic: PubSubTopic::SdpCall, max_buffer_len: 4 }).unwrap();
    assert_eq!(h.devices_ready("AA", None), Err(CommError::CollaboratorFailure));
    assert!(matches!(h.sessions_ref().state("AA"), Some(SessionState::Registered { .. })));
}
