use powercrabx::transfer::{
    ChunkRequest, PackRecord, PackStore, ResourcePackDescriptor, TransferError,
    PROTOCOL_CHUNK_SIZE,
};

fn descriptor(id: &str, total_size: u64) -> ResourcePackDescriptor {
    ResourcePackDescriptor {
        identifier: id.to_string(),
        version: "1.0.0".to_string(),
        total_size,
        content_hash: vec![7u8; 32],
        chunk_size: PROTOCOL_CHUNK_SIZE,
    }
}

fn pack_bytes(total_size: u64) -> Vec<u8> {
    (0..total_size).map(|i| (i % 251) as u8).collect()
}

#[test]
fn scenario_three_chunk_pack() {
    // total_size = 250000 with 102400-byte chunks: three chunks, and the
    // third starts at 204800 and carries the remaining 45200 bytes.
    let d = descriptor("pack", 250000);
    assert_eq!(d.chunk_count(), 3);
    assert_eq!(d.byte_offset(2), 204800);
    assert_eq!(d.chunk_len(2), 45200);
    assert_eq!(d.byte_offset(0), 0);
    assert_eq!(d.chunk_len(0), 102400);
    assert_eq!(d.byte_offset(1), 102400);
    assert_eq!(d.chunk_len(1), 102400);
}

#[test]
fn chunk_count_rounds_up() {
    assert_eq!(descriptor("a", 0).chunk_count(), 0);
    assert_eq!(descriptor("a", 1).chunk_count(), 1);
    assert_eq!(descriptor("a", 102400).chunk_count(), 1);
    assert_eq!(descriptor("a", 102401).chunk_count(), 2);
    assert_eq!(descriptor("a", 204800).chunk_count(), 2);
}

#[test]
fn chunks_tile_the_pack_exactly() {
    // The ranges are contiguous, start at zero, and end at the last byte.
    let d = descriptor("pack", 250000);
    let count = d.chunk_count();
    let mut expected_offset = 0u64;
    for i in 0..count {
        assert_eq!(d.byte_offset(i), expected_offset);
        let len = d.chunk_len(i);
        assert!(len >= 1);
        assert!(len <= PROTOCOL_CHUNK_SIZE as u64);
        assert_eq!(
            expected_offset + len,
            std::cmp::min(d.total_size, expected_offset + PROTOCOL_CHUNK_SIZE as u64)
        );
        expected_offset += len;
    }
    assert_eq!(expected_offset, d.total_size);
}

#[test]
fn chunk_response_carries_exact_slice() {
    let d = descriptor("pack", 250000);
    let data = pack_bytes(250000);
    let req = ChunkRequest { resource_name: "pack".to_string(), chunk_index: 2 };
    let resp = d.chunk_response(&data, &req).unwrap();
    assert_eq!(resp.resource_name, "pack");
    assert_eq!(resp.chunk_index, 2);
    assert_eq!(resp.byte_offset, 204800);
    assert_eq!(resp.payload.len(), 45200);
    assert_eq!(&resp.payload[..], &data[204800..250000]);
}

#[test]
fn chunk_request_out_of_range_is_an_error() {
    let d = descriptor("pack", 250000);
    let data = pack_bytes(250000);
    let req = ChunkRequest { resource_name: "pack".to_string(), chunk_index: 3 };
    assert_eq!(d.chunk_response(&data, &req), Err(TransferError::ChunkIndexOutOfRange));
    let far = ChunkRequest { resource_name: "pack".to_string(), chunk_index: 1000 };
    assert_eq!(d.chunk_response(&data, &far), Err(TransferError::ChunkIndexOutOfRange));
}

#[test]
fn empty_pack_has_no_chunks() {
    let d = descriptor("pack", 0);
    let data: Vec<u8> = Vec::new();
    let req = ChunkRequest { resource_name: "pack".to_string(), chunk_index: 0 };
    assert_eq!(d.chunk_response(&data, &req), Err(TransferError::ChunkIndexOutOfRange));
}

#[test]
fn store_finds_packs_by_identifier() {
    let store = PackStore {
        packs: vec![
            PackRecord { descriptor: descriptor("alpha", 10), data: pack_bytes(10) },
            PackRecord { descriptor: descriptor("beta", 20), data: pack_bytes(20) },
        ],
    };
    assert_eq!(store.find(&"alpha".to_string()), Some(0));
    assert_eq!(store.find(&"beta".to_string()), Some(1));
    assert_eq!(store.find(&"gamma".to_string()), None);
    let empty = PackStore::new();
    assert_eq!(empty.find(&"alpha".to_string()), None);
}
