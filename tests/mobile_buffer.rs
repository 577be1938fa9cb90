use webcam_direct::ble_cmd_api::{CmdApi, CommandReq, DataChunk, QueryApi, QueryReq};
use webcam_direct::mobile_buffer::{split_payload, BufferError, MobileBufferMap};

#[test]
fn test_remove_mobile() {
    let mut buffer_map = MobileBufferMap::new(5000);
    let addr = "00:11:22:33:44:55";

    buffer_map.add_mobile(addr);
    assert!(buffer_map.contains_mobile(addr));

    buffer_map.remove_mobile(addr);
    assert!(!buffer_map.contains_mobile(addr));
}

#[test]
fn test_contains_mobile() {
    let mut buffer_map = MobileBufferMap::new(5000);
    buffer_map.add_mobile("00:11:22:33:44:55");

    assert!(buffer_map.contains_mobile("00:11:22:33:44:55"));

    assert!(!buffer_map.contains_mobile("FF:EE:DD:CC:BB:AA"));

    buffer_map.remove_mobile("00:11:22:33:44:55");
    assert!(!buffer_map.contains_mobile("00:11:22:33:44:55"));
}

#[test]
fn test_get_next_data_chunk_simple_data() {
    let mut buffer_map = MobileBufferMap::new(5000);
    let addr = "AA:BB:CC:DD:EE:FF";

    let data = "A".repeat(100);
    let query = QueryReq { query_type: QueryApi::HostInfo, max_buffer_len: 100 };

    let chunk = buffer_map.get_next_data_chunk(addr, &query, data.as_bytes());

    assert_eq!(chunk.remain_len, 0);
    assert_eq!(chunk.buffer.len(), 100);
}

#[test]
fn test_get_next_data_chunk_simple_data_multiple_queries() {
    let mut buffer_map = MobileBufferMap::new(5000);
    let addr = "AA:BB:CC:DD:EE:FF";

    let data = "A".repeat(100);
    let query = QueryReq { query_type: QueryApi::HostInfo, max_buffer_len: 100 };

    let chunk = buffer_map.get_next_data_chunk(addr, &query, data.as_bytes());

    assert_eq!(chunk.remain_len, 0);
    assert_eq!(chunk.buffer.len(), 100);
}

#[test]
fn test_get_next_data_chunk_large_data() {
    let mut buffer_map = MobileBufferMap::new(5000);
    let addr = "AA:BB:CC:DD:EE:FF";

    let data = "A".repeat(5000);
    let query = QueryReq { query_type: QueryApi::HostInfo, max_buffer_len: 1024 };
    let mut chunks = Vec::new();

    loop {
        let chunk = buffer_map.get_next_data_chunk(addr, &query, data.as_bytes());
        chunks.push(chunk.clone());
        if chunk.remain_len == 0 {
            break;
        }
    }

    assert_eq!(chunks.len(), 5);
    assert_eq!(chunks[0].buffer.len(), 1024);
    assert_eq!(chunks[0].remain_len, 3976);
    assert_eq!(chunks[1].buffer.len(), 1024);
    assert_eq!(chunks[1].remain_len, 2952);
    assert_eq!(chunks[2].buffer.len(), 1024);
    assert_eq!(chunks[2].remain_len, 1928);
    assert_eq!(chunks[3].buffer.len(), 1024);
    assert_eq!(chunks[3].remain_len, 904);
    assert_eq!(chunks[4].buffer.len(), 904);
    assert_eq!(chunks[4].remain_len, 0);
}

#[test]
fn test_get_next_data_chunk_large_data_changing_max_buffer() {
    let mut buffer_map = MobileBufferMap::new(5000);
    let addr = "AA:BB:CC:DD:EE:FF";

    let data = "A".repeat(300);
    let mut chunks = Vec::new();

    let mut max_buffer_len = 15;
    let mut query = QueryReq { query_type: QueryApi::HostInfo, max_buffer_len };
    loop {
        let chunk = buffer_map.get_next_data_chunk(addr, &query, data.as_bytes());
        chunks.push(chunk.clone());
        if chunk.remain_len == 0 {
            break;
        }
        max_buffer_len *= 2;
        query.max_buffer_len = max_buffer_len;
    }
    assert!(chunks[chunks.len() - 1].remain_len == 0);
}

#[test]
fn test_get_next_data_chunk_large_data_twice() {
    let mut buffer_map = MobileBufferMap::new(5000);
    let addr = "AA:BB:CC:DD:EE:FF";

    let data = "A".repeat(300);
    let query = QueryReq { query_type: QueryApi::HostInfo, max_buffer_len: 15 };
    let mut chunks = Vec::new();

    loop {
        let chunk = buffer_map.get_next_data_chunk(addr, &query, data.as_bytes());
        chunks.push(chunk.clone());
        if chunk.remain_len == 0 {
            break;
        }
    }

    assert_eq!(chunks.len(), 20);
    assert_eq!(chunks[0].buffer.len(), 15);
    assert_eq!(chunks[0].remain_len, 285);
    assert_eq!(chunks[19].buffer.len(), 15);
    assert_eq!(chunks[19].remain_len, 0);

    let new_query = QueryReq { query_type: QueryApi::HostInfo, max_buffer_len: 13 };
    loop {
        let chunk = buffer_map.get_next_data_chunk(addr, &new_query, data.as_bytes());
        chunks.push(chunk.clone());
        if chunk.remain_len == 0 {
            break;
        }
    }

    assert_eq!(chunks.len(), 44);
    assert_eq!(chunks[20].buffer.len(), 13);
    assert_eq!(chunks[20].remain_len, 287);
    assert_eq!(chunks[43].buffer.len(), 1);
    assert_eq!(chunks[43].remain_len, 0);
}

#[test]
fn test_get_complete_buffer_simple_data() {
    let mut buffer_map = MobileBufferMap::new(5000);
    let addr = "11:22:33:44:55:66";

    let data = "B".repeat(100);
    let query = QueryReq { query_type: QueryApi::HostInfo, max_buffer_len: 100 };

    let chunk = buffer_map.get_next_data_chunk(addr, &query, data.as_bytes());
    assert_eq!(chunk.remain_len, 0);

    let cmd = CommandReq { cmd_type: CmdApi::MobileDisconnected, payload: chunk };
    if let Some(buffer) = buffer_map.get_complete_buffer(addr, &cmd) {
        assert_eq!(buffer.len(), 100);
    }
}

#[test]
fn test_get_complete_buffer_large_data() {
    let mut buffer_map = MobileBufferMap::new(5000);
    let addr = "11:22:33:44:55:66";

    let data = "B".repeat(3355);
    let query = QueryReq { query_type: QueryApi::HostInfo, max_buffer_len: 512 };
    let mut chunks = Vec::new();

    loop {
        let chunk = buffer_map.get_next_data_chunk(addr, &query, data.as_bytes());
        chunks.push(chunk.clone());
        if chunk.remain_len == 0 {
            break;
        }
    }

    let mut indx = 0;
    while indx <= chunks.len() {
        let cmd = CommandReq { cmd_type: CmdApi::MobileDisconnected, payload: chunks[indx].clone() };
        if let Some(buffer) = buffer_map.get_complete_buffer(addr, &cmd) {
            assert_eq!(buffer.len(), 3355);
            break;
        }
        indx += 1;
    }
}

#[test]
fn test_multiple_device_in_parallel_communication() {
    let mut buffer_map = MobileBufferMap::new(5000);
    let addr1 = "AA:BB:CC:DD:EE:FF";
    let addr2 = "11:22:33:44:55:66";

    let data1 = "A".repeat(1000);
    let data2 = "B".repeat(1000);

    let query1 = QueryReq { query_type: QueryApi::HostInfo, max_buffer_len: 100 };
    let query2 = QueryReq { query_type: QueryApi::HostInfo, max_buffer_len: 100 };

    let mut chunks1 = Vec::new();
    let mut chunks2 = Vec::new();

    loop {
        let chunk = buffer_map.get_next_data_chunk(addr1, &query1, data1.as_bytes());
        chunks1.push(chunk.clone());
        if chunk.remain_len == 0 {
            break;
        }
    }

    loop {
        let chunk = buffer_map.get_next_data_chunk(addr2, &query2, data2.as_bytes());
        chunks2.push(chunk.clone());
        if chunk.remain_len == 0 {
            break;
        }
    }

    assert_eq!(chunks1.len(), 10);
    assert_eq!(chunks2.len(), 10);

    for chunk in chunks1 {
        assert_eq!(chunk.buffer, "A".repeat(100).into_bytes());
    }

    for chunk in chunks2 {
        assert_eq!(chunk.buffer, "B".repeat(100).into_bytes());
    }
}

#[test]
fn test_single_device_single_parallel_communication() {
    let mut buffer_map = MobileBufferMap::new(5000);
    let addr = "AA:BB:CC:DD:EE:FF";

    let data1 = "A".repeat(500).into_bytes();
    let data2 = "B".repeat(500).into_bytes();

    let cmd1 = CommandReq {
        cmd_type: CmdApi::MobileDisconnected,
        payload: DataChunk { remain_len: 0, buffer: data1.clone() },
    };

    let cmd2 = CommandReq {
        cmd_type: CmdApi::RegisterMobile,
        payload: DataChunk { remain_len: 0, buffer: data2.clone() },
    };

    let mut buffer1: Vec<u8> = Vec::new();
    let mut buffer2: Vec<u8> = Vec::new();

    while let Some(chunk) = buffer_map.get_complete_buffer(addr, &cmd1) {
        buffer1.extend_from_slice(&chunk);
        if buffer1.len() >= data1.len() {
            break;
        }
    }

    while let Some(chunk) = buffer_map.get_complete_buffer(addr, &cmd2) {
        buffer2.extend_from_slice(&chunk);
        if buffer2.len() >= data2.len() {
            break;
        }
    }

    assert_eq!(buffer1, data1);
    assert_eq!(buffer2, data2);
}

#[test]
fn test_single_device_multiple_parallel_communication() {
    let mut buffer_map = MobileBufferMap::new(5000);
    let addr = "AA:BB:CC:DD:EE:FF";

    let data1 = "A".repeat(500).into_bytes();
    let data2 = "B".repeat(500).into_bytes();

    let mut chunks1 = Vec::new();
    let mut chunks2 = Vec::new();

    let mut start_chunk = 0;
    let chunk_len = 100;

    while start_chunk <= 500 - chunk_len {
        let end_chunk = start_chunk + chunk_len;

        chunks1.push(DataChunk {
            remain_len: 500 - end_chunk,
            buffer: data1[start_chunk..end_chunk].to_vec(),
        });

        chunks2.push(DataChunk {
            remain_len: 500 - end_chunk,
            buffer: data2[start_chunk..end_chunk].to_vec(),
        });

        start_chunk = end_chunk;
    }

    let mut chunks_itr = chunks1.iter();
    let mut chunks_itr2 = chunks2.iter();

    while let (Some(chunk1), Some(chunk2)) = (chunks_itr.next(), chunks_itr2.next()) {
        let cmd = CommandReq { cmd_type: CmdApi::RegisterMobile, payload: chunk1.clone() };

        if let Some(buffer1) = buffer_map.get_complete_buffer(addr, &cmd) {
            assert_eq!(buffer1.len(), 500);
            assert_eq!(buffer1, data1);
        }

        let cmd = CommandReq { cmd_type: CmdApi::SdpOffer, payload: chunk2.clone() };

        if let Some(buffer2) = buffer_map.get_complete_buffer(addr, &cmd) {
            assert_eq!(buffer2.len(), 500);
            assert_eq!(buffer2, data2);
        }
    }
}

#[test]
fn test_maximum_buffer_size() {
    let mut buffer_map = MobileBufferMap::new(9999);
    let addr = "AA:BB:CC:DD:EE:FF";

    let data = "A".repeat(10000).into_bytes();
    let cmd = CommandReq {
        cmd_type: CmdApi::MobileDisconnected,
        payload: DataChunk { remain_len: 0, buffer: data.clone() },
    };

    let buffer = buffer_map.get_complete_buffer(addr, &cmd);

    assert!(buffer.is_none());
}

#[test]
fn round_trip_reassembles_every_size() {
    for size in [0usize, 1, 7, 100, 1023, 1024, 1025, 4999] {
        for max in [1usize, 3, 20, 512, 5000] {
            let data: Vec<u8> = (0..size).map(|i| (i % 251) as u8).collect();
            let mut reader = MobileBufferMap::new(5000);
            let mut writer = MobileBufferMap::new(5000);
            let query = QueryReq { query_type: QueryApi::HostInfo, max_buffer_len: max };
            let mut result = None;
            let mut n = 0;
            loop {
                let chunk = reader.get_next_data_chunk("peer", &query, &data);
                assert!(chunk.buffer.len() <= max);
                let last = chunk.remain_len == 0;
                let cmd = CommandReq { cmd_type: CmdApi::RegisterMobile, payload: chunk };
                let out = writer.accumulate("peer", &cmd).unwrap();
                n += 1;
                if last {
                    result = out;
                    break;
                }
                assert!(out.is_none());
            }
            assert_eq!(result, Some(data.clone()));
            assert_eq!(n, std::cmp::max(1, (size + max - 1) / max));
        }
    }
}

#[test]
fn oversized_write_is_aborted_and_cursor_cleared() {
    let mut map = MobileBufferMap::new(10);
    let first = CommandReq {
        cmd_type: CmdApi::SdpOffer,
        payload: DataChunk { remain_len: 5, buffer: vec![1; 8] },
    };
    assert_eq!(map.accumulate("a", &first), Ok(None));
    let second = CommandReq {
        cmd_type: CmdApi::SdpOffer,
        payload: DataChunk { remain_len: 0, buffer: vec![2; 5] },
    };
    assert_eq!(map.accumulate("a", &second), Err(BufferError::BufferLimitExceeded));
    // The aborted write starts over from nothing.
    let third = CommandReq {
        cmd_type: CmdApi::SdpOffer,
        payload: DataChunk { remain_len: 0, buffer: vec![3; 4] },
    };
    assert_eq!(map.accumulate("a", &third), Ok(Some(vec![3; 4])));
}

#[test]
fn payload_at_exact_limit_is_accepted() {
    let mut map = MobileBufferMap::new(10);
    let cmd = CommandReq {
        cmd_type: CmdApi::MobilePnpId,
        payload: DataChunk { remain_len: 0, buffer: vec![7; 10] },
    };
    assert_eq!(map.accumulate("a", &cmd), Ok(Some(vec![7; 10])));
}

#[test]
fn oversized_chunk_request_restarts_the_read() {
    let mut map = MobileBufferMap::new(10);
    let data = b"abcdefghijklmnopqrstuvwxyz".to_vec();
    let query = QueryReq { query_type: QueryApi::HostInfo, max_buffer_len: 20 };
    let first = map.get_next_data_chunk("a", &query, &data);
    assert_eq!(first.buffer, b"abcdefghijklmnopqrst".to_vec());
    assert_eq!(first.remain_len, 6);
    // The cursor was dropped, so the next read starts from the front again.
    let second = map.get_next_data_chunk("a", &query, &data);
    assert_eq!(second.buffer, first.buffer);
}

#[test]
fn empty_payload_is_one_empty_chunk() {
    let mut map = MobileBufferMap::new(10);
    let query = QueryReq { query_type: QueryApi::HostInfo, max_buffer_len: 4 };
    let chunk = map.get_next_data_chunk("a", &query, &[]);
    assert_eq!(chunk, DataChunk { remain_len: 0, buffer: vec![] });
}

#[test]
fn split_payload_matches_successive_reads() {
    let data: Vec<u8> = (0..10u8).collect();
    let chunks = split_payload(&data, 4);
    assert_eq!(
        chunks,
        vec![
            DataChunk { remain_len: 6, buffer: vec![0, 1, 2, 3] },
            DataChunk { remain_len: 2, buffer: vec![4, 5, 6, 7] },
            DataChunk { remain_len: 0, buffer: vec![8, 9] },
        ]
    );
}

#[test]
fn oversized_chunk_is_flagged() {
    let map = MobileBufferMap::new(10);
    assert!(!map.oversized_chunk(10));
    assert!(map.oversized_chunk(11));
}
