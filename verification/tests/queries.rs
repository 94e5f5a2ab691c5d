//! The query layers, driven against scripted peers.

use bcachefs_tools::accounting::DiskAccountingPos;
use bcachefs_tools::counters::{match_counter, read_counters, COUNTERS_MOUNT_FLAG};
use bcachefs_tools::devices::{
    cmd_device_offline, cmd_device_online, cmd_device_remove, cmd_device_resize,
    cmd_device_set_state, OfflineCli, OnlineCli, RemoveCli, SetStateCli,
};
use bcachefs_tools::error::{classify_errno, ErrorKind, QueryError};
use bcachefs_tools::flex::{query_flex, FieldRef, FlexLayout};
use bcachefs_tools::handle::{BcachefsHandle, DevUsageType, BCH_BY_INDEX, BCH_FORCE_IF_DATA_LOST,
    BCH_FORCE_IF_DEGRADED};
use bcachefs_tools::ioctl::{bch_ioc_w, bch_ioc_wr, wire_number, Direction};
use bcachefs_tools::port::{send, ControlPort, ControlRequest};
use bcachefs_tools::usage::{accounting_types_mask, dev_leaving_sectors, parse_replica_entries,
    replicas_durability, DevInfo, FIELD_BTREE, FIELD_COMPRESSION, FIELD_REBALANCE_WORK,
    VERSION_RECONCILE};
use bcachefs_tools::versioned::send_versioned;

const ENOTTY: i32 = 25;
const ERANGE: i32 = 34;
const EIO: i32 = 5;

/// One scripted answer: a result code, and byte patches laid into the payload
/// before returning.
struct Reply {
    code: i32,
    patches: Vec<(usize, Vec<u8>)>,
    /// Bytes written into the diagnostic buffer, when one was attached.
    diag: Vec<u8>,
    /// Hand back fewer bytes than offered, when set.
    truncate_to: Option<usize>,
}

/// A peer that answers from a script and records what it was asked.
struct ScriptedPeer {
    replies: Vec<Reply>,
    next: usize,
    calls: Vec<(u64, Vec<u8>)>,
    paths_seen: Vec<(Vec<u8>, usize)>,
}

impl ScriptedPeer {
    fn new(replies: Vec<Reply>) -> ScriptedPeer {
        ScriptedPeer { replies, next: 0, calls: Vec::new(), paths_seen: Vec::new() }
    }

    fn answer(&mut self, wire: u64, payload: &mut Vec<u8>) -> i32 {
        self.calls.push((wire, payload.clone()));
        let reply = &self.replies[self.next];
        self.next += 1;
        for (off, bytes) in &reply.patches {
            payload[*off..*off + bytes.len()].copy_from_slice(bytes);
        }
        if let Some(n) = reply.truncate_to {
            payload.truncate(n);
        }
        reply.code
    }
}

impl ControlPort for ScriptedPeer {
    fn submit(&mut self, wire: u64, payload: &mut Vec<u8>) -> i32 {
        self.answer(wire, payload)
    }

    fn submit_patched(
        &mut self,
        wire: u64,
        payload: &mut Vec<u8>,
        path_a: &Vec<u8>,
        a_off: usize,
        path_b: &Vec<u8>,
        b_off: usize,
        diag: &mut Vec<u8>,
        _diag_ptr_off: usize,
        _diag_len_off: usize,
    ) -> i32 {
        if !path_a.is_empty() {
            self.paths_seen.push((path_a.clone(), a_off));
        }
        if !path_b.is_empty() {
            self.paths_seen.push((path_b.clone(), b_off));
        }
        let reply_diag = self.replies[self.next].diag.clone();
        if !diag.is_empty() && !reply_diag.is_empty() {
            diag[..reply_diag.len()].copy_from_slice(&reply_diag);
        }
        self.answer(wire, payload)
    }
}

fn ok_reply(patches: Vec<(usize, Vec<u8>)>) -> Reply {
    Reply { code: 0, patches, diag: Vec::new(), truncate_to: None }
}

fn err_reply(code: i32) -> Reply {
    Reply { code, patches: Vec::new(), diag: Vec::new(), truncate_to: None }
}

#[test]
fn wire_numbers_pack_the_fields() {
    let expected = (1u64 << 30) | (32u64 << 16) | (0xbcu64 << 8) | 21;
    assert_eq!(bch_ioc_w(21, 32), expected);
    let expected_wr = (3u64 << 30) | (8u64 << 16) | (0xbcu64 << 8) | 21;
    assert_eq!(bch_ioc_wr(21, 8), expected_wr);
    // the counter and accounting queries share an opcode but never a number
    assert_ne!(bch_ioc_w(21, 32), bch_ioc_w(21, 8));
    assert_eq!(
        wire_number(Direction::Read, 16, 7),
        (2u64 << 30) | (16u64 << 16) | (0xbcu64 << 8) | 7
    );
}

#[test]
fn error_codes_classify() {
    assert_eq!(classify_errno(ENOTTY), ErrorKind::NotSupported);
    assert_eq!(classify_errno(ERANGE), ErrorKind::RangeTooSmall);
    assert_eq!(classify_errno(EIO), ErrorKind::System(EIO));
}

fn test_layout() -> FlexLayout {
    FlexLayout {
        header_len: 16,
        record_len: 4,
        capacity_field: FieldRef { off: 0, width: 4 },
        count_field: FieldRef { off: 4, width: 4 },
        total_field: FieldRef { off: 8, width: 4 },
    }
}

fn test_req() -> ControlRequest {
    ControlRequest { direction: Direction::Write, opcode: 9, payload_size: 16 }
}

#[test]
fn flex_query_grows_once_and_returns_all_records() {
    // The peer wants room for ten records; the retry offers exactly ten and
    // gets them all, in two calls and no more.
    let mut records = Vec::new();
    for i in 0..10u32 {
        records.push((16 + 4 * i as usize, (100 + i).to_le_bytes().to_vec()));
    }
    let mut patches = vec![(4usize, 10u32.to_le_bytes().to_vec())];
    patches.extend(records);
    let mut peer = ScriptedPeer::new(vec![
        Reply {
            code: ERANGE,
            patches: vec![(8, 10u32.to_le_bytes().to_vec())],
            diag: Vec::new(),
            truncate_to: None,
        },
        ok_reply(patches),
    ]);
    let initial = vec![0u8; 16];
    let resp = query_flex(&mut peer, &test_req(), &test_layout(), &initial, 4, 1000, 3).unwrap();
    assert_eq!(peer.calls.len(), 2);
    // the first call offered the hint, the second exactly the reported total
    assert_eq!(&peer.calls[0].1[0..4], &4u32.to_le_bytes());
    assert_eq!(&peer.calls[1].1[0..4], &10u32.to_le_bytes());
    // ten records of four bytes each came back
    assert_eq!(resp.header.count, 10);
    assert_eq!(resp.records.len(), 40);
    assert_eq!(&resp.records[0..4], &100u32.to_le_bytes());
    assert_eq!(&resp.records[36..40], &109u32.to_le_bytes());
}

#[test]
fn flex_query_clips_overlong_counts() {
    // A count claiming more records than the buffer holds is not believed.
    let mut peer = ScriptedPeer::new(vec![ok_reply(vec![(
        4,
        1000u32.to_le_bytes().to_vec(),
    )])]);
    let initial = vec![0u8; 16];
    let resp = query_flex(&mut peer, &test_req(), &test_layout(), &initial, 2, 100, 0).unwrap();
    assert_eq!(resp.header.count, 1000);
    assert_eq!(resp.records.len(), 8);
}

#[test]
fn flex_query_gives_up_when_retries_run_out() {
    let mut peer = ScriptedPeer::new(vec![
        Reply {
            code: ERANGE,
            patches: vec![(8, 10u32.to_le_bytes().to_vec())],
            diag: Vec::new(),
            truncate_to: None,
        },
        Reply {
            code: ERANGE,
            patches: vec![(8, 20u32.to_le_bytes().to_vec())],
            diag: Vec::new(),
            truncate_to: None,
        },
    ]);
    let initial = vec![0u8; 16];
    let r = query_flex(&mut peer, &test_req(), &test_layout(), &initial, 4, 1000, 1);
    assert_eq!(r.unwrap_err(), ErrorKind::RangeTooSmall);
    assert_eq!(peer.calls.len(), 2);
}

#[test]
fn flex_query_reports_a_short_response_as_truncated() {
    // A success that hands back less than the response's own header cannot
    // be decoded.
    let mut peer = ScriptedPeer::new(vec![Reply {
        code: 0,
        patches: Vec::new(),
        diag: Vec::new(),
        truncate_to: Some(8),
    }]);
    let initial = vec![0u8; 16];
    let r = query_flex(&mut peer, &test_req(), &test_layout(), &initial, 4, 1000, 3);
    assert_eq!(r.unwrap_err(), ErrorKind::Truncated);
}

#[test]
fn flex_query_passes_other_errors_through() {
    let mut peer = ScriptedPeer::new(vec![err_reply(EIO)]);
    let initial = vec![0u8; 16];
    let r = query_flex(&mut peer, &test_req(), &test_layout(), &initial, 4, 1000, 3);
    assert_eq!(r.unwrap_err(), ErrorKind::System(EIO));
    assert_eq!(peer.calls.len(), 1);
}

#[test]
fn fixed_send_maps_the_result() {
    let mut peer = ScriptedPeer::new(vec![err_reply(ERANGE)]);
    let req = ControlRequest { direction: Direction::Write, opcode: 3, payload_size: 8 };
    let mut payload = vec![0u8; 8];
    assert_eq!(send(&mut peer, &req, &mut payload), Err(ErrorKind::RangeTooSmall));
}

fn versioned_reqs() -> (ControlRequest, ControlRequest) {
    (
        ControlRequest { direction: Direction::Write, opcode: 24, payload_size: 32 },
        ControlRequest { direction: Direction::Write, opcode: 5, payload_size: 16 },
    )
}

#[test]
fn versioned_send_falls_back_on_not_supported() {
    let (new_req, old_req) = versioned_reqs();
    let mut peer = ScriptedPeer::new(vec![err_reply(ENOTTY), ok_reply(Vec::new())]);
    let mut new_payload = vec![0u8; 32];
    let mut old_payload = vec![0u8; 16];
    let none: Vec<u8> = Vec::new();
    let r = send_versioned(
        &mut peer, &new_req, &mut new_payload, 16, 24, &old_req, &mut old_payload, &none, 0,
        &none, 0,
    );
    assert_eq!(r, Ok(()));
    assert_eq!(peer.calls.len(), 2);
    assert_eq!(peer.calls[0].0, bch_ioc_w(24, 32));
    assert_eq!(peer.calls[1].0, bch_ioc_w(5, 16));
}

#[test]
fn versioned_send_surfaces_real_failures_with_text() {
    let (new_req, old_req) = versioned_reqs();
    let mut peer = ScriptedPeer::new(vec![Reply {
        code: EIO,
        patches: Vec::new(),
        diag: b"device gone\0".to_vec(),
        truncate_to: None,
    }]);
    let mut new_payload = vec![0u8; 32];
    let mut old_payload = vec![0u8; 16];
    let none: Vec<u8> = Vec::new();
    let r = send_versioned(
        &mut peer, &new_req, &mut new_payload, 16, 24, &old_req, &mut old_payload, &none, 0,
        &none, 0,
    );
    let e = r.unwrap_err();
    assert_eq!(e.kind, ErrorKind::System(EIO));
    assert_eq!(e.message, b"device gone".to_vec());
    // the older form is never tried after a real failure
    assert_eq!(peer.calls.len(), 1);
}

#[test]
fn versioned_send_reports_double_not_supported_without_text() {
    let (new_req, old_req) = versioned_reqs();
    let mut peer = ScriptedPeer::new(vec![err_reply(ENOTTY), err_reply(ENOTTY)]);
    let mut new_payload = vec![0u8; 32];
    let mut old_payload = vec![0u8; 16];
    let none: Vec<u8> = Vec::new();
    let r = send_versioned(
        &mut peer, &new_req, &mut new_payload, 16, 24, &old_req, &mut old_payload, &none, 0,
        &none, 0,
    );
    let e = r.unwrap_err();
    assert_eq!(e.kind, ErrorKind::NotSupported);
    assert!(e.message.is_empty());
}

fn handle_with(replies: Vec<Reply>) -> BcachefsHandle<ScriptedPeer> {
    BcachefsHandle::new(ScriptedPeer::new(replies), 0, [7u8; 16])
}

#[test]
fn offline_command_sends_the_chosen_flags() {
    let mut handle = handle_with(vec![ok_reply(Vec::new())]);
    let cli = OfflineCli { force: true, device: "/dev/vda".to_string() };
    cmd_device_offline(&mut handle, &cli, 3).unwrap();
    let (wire, payload) = &handle.port.calls[0];
    assert_eq!(*wire, bch_ioc_w(26, 32));
    let flags = u32::from_le_bytes(payload[0..4].try_into().unwrap());
    assert_eq!(flags, BCH_FORCE_IF_DEGRADED | BCH_BY_INDEX);
    let dev = u64::from_le_bytes(payload[8..16].try_into().unwrap());
    assert_eq!(dev, 3);
}

#[test]
fn remove_command_composes_force_flags() {
    let mut handle = handle_with(vec![ok_reply(Vec::new())]);
    let cli = RemoveCli {
        force: true,
        force_metadata: false,
        device: "1".to_string(),
        path: None,
    };
    cmd_device_remove(&mut handle, &cli, 1).unwrap();
    let (_, payload) = &handle.port.calls[0];
    let flags = u32::from_le_bytes(payload[0..4].try_into().unwrap());
    assert_eq!(flags, BCH_FORCE_IF_DEGRADED | BCH_FORCE_IF_DATA_LOST | BCH_BY_INDEX);
}

#[test]
fn set_state_rejects_unknown_names_before_sending() {
    let mut handle = handle_with(Vec::new());
    let cli = SetStateCli {
        force: false,
        force_if_data_lost: false,
        new_state: "sideways".to_string(),
        device: "1".to_string(),
        path: None,
    };
    let e = cmd_device_set_state(&mut handle, &cli, 1).unwrap_err();
    assert_eq!(e.kind, ErrorKind::System(22));
    assert!(handle.port.calls.is_empty());
}

#[test]
fn set_state_writes_the_state_byte() {
    let mut handle = handle_with(vec![ok_reply(Vec::new())]);
    let cli = SetStateCli {
        force: false,
        force_if_data_lost: false,
        new_state: "evacuating".to_string(),
        device: "1".to_string(),
        path: None,
    };
    cmd_device_set_state(&mut handle, &cli, 1).unwrap();
    let (_, payload) = &handle.port.calls[0];
    assert_eq!(payload[4], 2);
}

fn dev_usage_v2_reply() -> Reply {
    let mut patches = vec![
        (12usize, vec![1u8]),  // state: read-only
        (13usize, vec![3u8]),  // three data types returned
        (16usize, 512u32.to_le_bytes().to_vec()),
        (24usize, 1000u64.to_le_bytes().to_vec()),
    ];
    for i in 0..3u64 {
        let base = 32 + 24 * i as usize;
        patches.push((base, (10 + i).to_le_bytes().to_vec()));
        patches.push((base + 8, (20 + i).to_le_bytes().to_vec()));
        patches.push((base + 16, (30 + i).to_le_bytes().to_vec()));
    }
    ok_reply(patches)
}

#[test]
fn dev_usage_parses_the_flexible_response() {
    let mut handle = handle_with(vec![dev_usage_v2_reply()]);
    let usage = handle.dev_usage(2).unwrap();
    assert_eq!(usage.state, 1);
    assert_eq!(usage.bucket_size, 512);
    assert_eq!(usage.nr_buckets, 1000);
    assert_eq!(
        usage.data_types,
        vec![
            DevUsageType { buckets: 10, sectors: 20, fragmented: 30 },
            DevUsageType { buckets: 11, sectors: 21, fragmented: 31 },
            DevUsageType { buckets: 12, sectors: 22, fragmented: 32 },
        ]
    );
    let (wire, payload) = &handle.port.calls[0];
    assert_eq!(*wire, bch_ioc_wr(18, 32));
    assert_eq!(u64::from_le_bytes(payload[0..8].try_into().unwrap()), 2);
    assert_eq!(
        u32::from_le_bytes(payload[8..12].try_into().unwrap()),
        BCH_BY_INDEX
    );
}

#[test]
fn dev_usage_falls_back_to_the_fixed_response() {
    let mut patches = vec![
        (12usize, vec![0u8]),
        (16usize, 256u32.to_le_bytes().to_vec()),
        (24usize, 77u64.to_le_bytes().to_vec()),
    ];
    patches.push((32 + 8, 5u64.to_le_bytes().to_vec()));
    let mut handle = handle_with(vec![err_reply(ENOTTY), ok_reply(patches)]);
    let usage = handle.dev_usage(0).unwrap();
    assert_eq!(handle.port.calls.len(), 2);
    assert_eq!(handle.port.calls[1].0, bch_ioc_wr(11, 32 + 10 * 24));
    assert_eq!(usage.bucket_size, 256);
    assert_eq!(usage.nr_buckets, 77);
    assert_eq!(usage.data_types.len(), 10);
    assert_eq!(usage.data_types[0].sectors, 5);
}

#[test]
fn accounting_query_grows_to_the_reported_words() {
    // One entry: six words, an inode-count key, one counter of seven.
    let mut entry = vec![0u8; 48];
    entry[0] = 6;
    entry[40..48].copy_from_slice(&7u64.to_le_bytes());
    let mut patches = vec![
        (0usize, 900u64.to_le_bytes().to_vec()),
        (8usize, 300u64.to_le_bytes().to_vec()),
        (16usize, 11u64.to_le_bytes().to_vec()),
        (24usize, 6u32.to_le_bytes().to_vec()),
        (32usize, entry),
    ];
    let mut handle = handle_with(vec![
        Reply {
            code: ERANGE,
            patches: vec![(24, 6u32.to_le_bytes().to_vec())],
            diag: Vec::new(),
            truncate_to: None,
        },
        Reply {
            code: 0,
            patches: patches.drain(..).collect(),
            diag: Vec::new(),
            truncate_to: None,
        },
    ]);
    let res = handle.query_accounting(7, 2000, 2, 1 << 20, 4).unwrap();
    assert_eq!(handle.port.calls.len(), 2);
    // the retry asked for exactly the reported word count
    let second = &handle.port.calls[1].1;
    assert_eq!(u32::from_le_bytes(second[24..28].try_into().unwrap()), 6);
    // the type mask went out in both requests
    assert_eq!(u32::from_le_bytes(second[28..32].try_into().unwrap()), 7);
    assert_eq!(res.capacity, 900);
    assert_eq!(res.used, 300);
    assert_eq!(res.online_reserved, 11);
    assert_eq!(res.entries.len(), 1);
    assert_eq!(res.entries[0].pos, DiskAccountingPos::NrInodes);
    assert_eq!(res.entries[0].counters, vec![7]);
}

#[test]
fn fs_usage_v0_doubles_its_offer() {
    let mut patches = vec![
        (0usize, 800u64.to_le_bytes().to_vec()),
        (8usize, 400u64.to_le_bytes().to_vec()),
        (16usize, 9u64.to_le_bytes().to_vec()),
        (24usize, 1u64.to_le_bytes().to_vec()),
        (56usize, 13u32.to_le_bytes().to_vec()),
    ];
    // one replica entry: 100 sectors, user data, two devices, one required
    let mut entry = Vec::new();
    entry.extend_from_slice(&100u64.to_le_bytes());
    entry.extend_from_slice(&[4, 2, 1, 0, 1]);
    patches.push((64, entry));
    let mut handle = handle_with(vec![err_reply(ERANGE), Reply {
        code: 0,
        patches,
        diag: Vec::new(),
        truncate_to: None,
    }]);
    let r = handle.query_fs_usage_v0(16, 1 << 20, 4).unwrap();
    assert_eq!(handle.port.calls.len(), 2);
    // the first call offered sixteen bytes, the second twice that
    assert_eq!(
        u32::from_le_bytes(handle.port.calls[0].1[56..60].try_into().unwrap()),
        16
    );
    assert_eq!(
        u32::from_le_bytes(handle.port.calls[1].1[56..60].try_into().unwrap()),
        32
    );
    assert_eq!(r.capacity, 800);
    assert_eq!(r.used, 400);
    assert_eq!(r.online_reserved, 9);
    assert_eq!(r.persistent_reserved, vec![1, 0, 0, 0]);
    assert_eq!(r.replica_entries.len(), 1);
    assert_eq!(r.replica_entries[0].sectors, 100);
    assert_eq!(r.replica_entries[0].devs, vec![0, 1]);
}

#[test]
fn counters_come_back_as_words() {
    let patches = vec![
        (0usize, 3u16.to_le_bytes().to_vec()),
        (8usize, 111u64.to_le_bytes().to_vec()),
        (16usize, 222u64.to_le_bytes().to_vec()),
        (24usize, 333u64.to_le_bytes().to_vec()),
    ];
    let mut peer = ScriptedPeer::new(vec![ok_reply(patches)]);
    let values = read_counters(&mut peer, COUNTERS_MOUNT_FLAG, 8).unwrap();
    assert_eq!(values, vec![111, 222, 333]);
    // the request carried the asked-for count and the flags
    let payload = &peer.calls[0].1;
    assert_eq!(u16::from_le_bytes(payload[0..2].try_into().unwrap()), 8);
    assert_eq!(u16::from_le_bytes(payload[2..4].try_into().unwrap()), 1);
}

#[test]
fn counter_names_match_by_position() {
    let names = vec!["alpha".to_string(), "beta".to_string()];
    assert_eq!(match_counter(&names, &"beta".to_string()), Some(1));
    assert_eq!(match_counter(&names, &"gamma".to_string()), None);
}

#[test]
fn replica_entries_parse_and_stop_at_truncation() {
    let mut data = Vec::new();
    data.extend_from_slice(&50u64.to_le_bytes());
    data.extend_from_slice(&[4, 1, 1, 9]);
    // a second entry whose device list runs past the buffer
    data.extend_from_slice(&60u64.to_le_bytes());
    data.extend_from_slice(&[4, 200, 1]);
    let entries = parse_replica_entries(&data);
    assert_eq!(entries.len(), 1);
    assert_eq!(entries[0].sectors, 50);
    assert_eq!(entries[0].devs, vec![9]);
}

fn dev(idx: u32, durability: u32) -> DevInfo {
    DevInfo { idx, dev: format!("dev{}", idx), label: None, durability }
}

#[test]
fn durability_sums_devices_or_counts_copies() {
    let devs = vec![dev(0, 2), dev(1, 1)];
    // one required: durabilities add up; the unknown device counts one and
    // is degraded
    let d = replicas_durability(4, 3, 1, &vec![0, 1, 9], &devs);
    assert_eq!(d.durability, 4);
    assert_eq!(d.minus_degraded, 3);
    // more than one required: copies beyond the requirement plus one
    let d = replicas_durability(4, 3, 2, &vec![0, 1, 9], &devs);
    assert_eq!(d.durability, 2);
}

#[test]
fn type_mask_follows_fields_and_generation() {
    let base = (1 << 2) | (1 << 1);
    assert_eq!(accounting_types_mask(0, 0), base);
    assert_eq!(accounting_types_mask(FIELD_COMPRESSION, 0), base | (1 << 4));
    assert_eq!(accounting_types_mask(FIELD_BTREE, 0), base | (1 << 6));
    assert_eq!(
        accounting_types_mask(FIELD_REBALANCE_WORK, VERSION_RECONCILE - 1),
        base | (1 << 7)
    );
    assert_eq!(
        accounting_types_mask(FIELD_REBALANCE_WORK, VERSION_RECONCILE),
        base | (1 << 9) | (1 << 10)
    );
}

#[test]
fn leaving_sectors_found_by_device() {
    let mut entry = vec![0u8; 48];
    entry[0] = 6;
    entry[20] = 10;  // device-leaving discriminator
    entry[21..25].copy_from_slice(&3u32.to_le_bytes());
    entry[40..48].copy_from_slice(&555u64.to_le_bytes());
    let entries = bcachefs_tools::accounting::parse_accounting_entries(
        &entry,
        bcachefs_tools::accounting::BIG_ENDIAN_ACCOUNTING_VERSION,
    );
    assert_eq!(dev_leaving_sectors(&entries, 3), 555);
    assert_eq!(dev_leaving_sectors(&entries, 4), 0);
}

#[test]
fn resize_refuses_to_shrink() {
    // the device reports 1000 buckets of 512 sectors; asking for less is
    // rejected before anything is sent
    let mut handle = handle_with(vec![dev_usage_v2_reply()]);
    let e = cmd_device_resize(&mut handle, 2, 1 << 9).unwrap_err();
    assert_eq!(e.kind, ErrorKind::System(22));
    assert_eq!(handle.port.calls.len(), 1);
}

#[test]
fn online_command_patches_the_device_path_in() {
    let mut handle = handle_with(vec![ok_reply(Vec::new())]);
    let cli = OnlineCli { device: "/dev/vdb".to_string() };
    cmd_device_online(&mut handle, &cli).unwrap();
    // the zero-terminated path went to the port, aimed at the device field
    assert_eq!(handle.port.paths_seen.len(), 1);
    assert_eq!(handle.port.paths_seen[0].0, b"/dev/vdb\0".to_vec());
    assert_eq!(handle.port.paths_seen[0].1, 8);
}

#[test]
fn query_error_bare_has_no_message() {
    let e = QueryError::bare(ErrorKind::NotSupported);
    assert_eq!(e.kind, ErrorKind::NotSupported);
    assert!(e.message.is_empty());
}
