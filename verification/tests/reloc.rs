use ssb_resource::extract::{ExtractError, RelocInfo, TableFile};

fn node(buf: &mut Vec<u8>, at: usize, next: u16, ptr: u16) {
    buf[at] = (next >> 8) as u8;
    buf[at + 1] = (next & 0xFF) as u8;
    buf[at + 2] = (ptr >> 8) as u8;
    buf[at + 3] = (ptr & 0xFF) as u8;
}

fn be32_at(buf: &[u8], at: usize) -> u32 {
    ((buf[at] as u32) << 24)
        | ((buf[at + 1] as u32) << 16)
        | ((buf[at + 2] as u32) << 8)
        | (buf[at + 3] as u32)
}

/// A 0x14-byte buffer holding a 2-node internal chain at offset 0:
/// node0 = (next=0x04, ptr=0x10), node1 at 0x10 = (next=0xFFFF, ptr=0x20).
fn two_node_buffer() -> Vec<u8> {
    let mut buf = vec![0u8; 0x14];
    node(&mut buf, 0x00, 0x04, 0x10);
    node(&mut buf, 0x10, 0xFFFF, 0x20);
    buf
}

#[test]
fn internal_chain_rewrites_nodes_in_place() {
    let mut buf = two_node_buffer();
    let log = ssb_resource::extract::write_relocations(&mut buf, &RelocInfo::Internal(0)).unwrap();
    assert_eq!(log, vec![(0u16, 0x00usize, 0x40u32), (0u16, 0x10usize, 0x80u32)]);
    // the rewritten pointer fields decode as the original fields scaled by 4
    assert_eq!(be32_at(&buf, 0x00), 0x40);
    assert_eq!(be32_at(&buf, 0x10), 0x80);
}

#[test]
fn rerunning_a_converted_chain_is_detectable() {
    let mut buf = two_node_buffer();
    let first = ssb_resource::extract::write_relocations(&mut buf, &RelocInfo::Internal(0)).unwrap();
    // a second walk over the already-converted buffer must not reproduce the
    // first walk: node0 now reads (next=0x0000, ptr=0x0040), so the walk
    // revisits offset 0 until the node capacity stops it
    let second = ssb_resource::extract::write_relocations(&mut buf, &RelocInfo::Internal(0));
    match second {
        Ok(log) => assert_ne!(log, first),
        Err(e) => assert!(matches!(e, ExtractError::MalformedChain { .. })),
    }
}

#[test]
fn external_chain_takes_ids_in_chain_order() {
    let mut buf = two_node_buffer();
    let log = ssb_resource::extract::write_relocations(
        &mut buf,
        &RelocInfo::External(0, vec![5, 7]),
    )
    .unwrap();
    assert_eq!(log, vec![(5u16, 0x00usize, 0x40u32), (7u16, 0x10usize, 0x80u32)]);
}

#[test]
fn exhausted_id_list_defaults_to_zero() {
    let mut buf = two_node_buffer();
    let log = ssb_resource::extract::write_relocations(
        &mut buf,
        &RelocInfo::External(0, vec![5]),
    )
    .unwrap();
    assert_eq!(log, vec![(5u16, 0x00usize, 0x40u32), (0u16, 0x10usize, 0x80u32)]);
}

#[test]
fn chain_node_outside_buffer_is_out_of_bounds() {
    let mut buf = vec![0u8; 8];
    node(&mut buf, 0, 0x1000, 0x10);
    let r = ssb_resource::extract::write_relocations(&mut buf, &RelocInfo::Internal(0));
    assert!(matches!(r, Err(ExtractError::OutOfBounds)));
}

#[test]
fn chain_cycle_is_malformed() {
    let mut buf = vec![0u8; 8];
    // the node at 0 points back to itself
    node(&mut buf, 0, 0, 0);
    let r = ssb_resource::extract::write_relocations(&mut buf, &RelocInfo::Internal(0));
    assert!(matches!(r, Err(ExtractError::MalformedChain { .. })));
}

#[test]
fn relocate_walks_both_chains_of_a_record() {
    // a record whose payload holds an internal chain at 0 and an external
    // chain at 8, each one node long
    let mut payload = vec![0u8; 0x10];
    node(&mut payload, 0, 0xFFFF, 0x01);
    node(&mut payload, 8, 0xFFFF, 0x02);
    let entry = TableFile {
        id: 0,
        offset: 0,
        compressed: false,
        raw: payload.clone(),
        inreloc: Some(RelocInfo::Internal(0)),
        exreloc: Some(RelocInfo::External(8, vec![9])),
    };
    let (out, logs) = ssb_resource::extract::relocate(payload, &entry).unwrap();
    assert_eq!(logs.internal.unwrap(), vec![(0u16, 0usize, 4u32)]);
    assert_eq!(logs.external.unwrap(), vec![(9u16, 8usize, 8u32)]);
    assert_eq!(be32_at(&out, 0), 4);
    assert_eq!(be32_at(&out, 8), 8);
}
