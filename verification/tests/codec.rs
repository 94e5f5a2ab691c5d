//! Accounting-key codec, record decoding, snapshot diffing and key plumbing.

use bcachefs_tools::accounting::{
    decode_position, encode_position, parse_accounting_entries, DiskAccountingPos,
    BIG_ENDIAN_ACCOUNTING_VERSION,
};
use bcachefs_tools::keys::{sb_is_encrypted, unencrypted_key, BchKey, Keyring, Sb, SbCrypt,
    BCH_KEY_MAGIC};
use bcachefs_tools::snapshots::{
    diff_subvolumes, dirent_name, find_snapshot_changes, ChangeKind, DirentRecord,
    KEY_TYPE_DIRENT, KEY_TYPE_HASH_WHITEOUT, KEY_TYPE_WHITEOUT,
};

const NEW_VERSION: u64 = BIG_ENDIAN_ACCOUNTING_VERSION;
const OLD_VERSION: u64 = BIG_ENDIAN_ACCOUNTING_VERSION - 1;

fn padded20(prefix: &[u8]) -> Vec<u8> {
    let mut v = prefix.to_vec();
    while v.len() < 20 {
        v.push(0);
    }
    v
}

#[test]
fn replicas_key_decodes_field_by_field() {
    // discriminator 2 (replicas), data type 4, two devices, one required,
    // device list [5, 7]
    let raw = padded20(&[0x02, 0x04, 0x02, 0x01, 0x05, 0x07]);
    match decode_position(&raw, NEW_VERSION) {
        DiskAccountingPos::Replicas { data_type, nr_devs, nr_required, devs } => {
            assert_eq!(data_type, 4);
            assert_eq!(nr_devs, 2);
            assert_eq!(nr_required, 1);
            assert_eq!(devs, vec![5, 7]);
        }
        other => panic!("wrong variant: {:?}", other),
    }
}

#[test]
fn decode_is_deterministic() {
    let raw = padded20(&[0x05, 0xef, 0xbe, 0xad, 0xde]);
    let a = decode_position(&raw, OLD_VERSION);
    let b = decode_position(&raw, OLD_VERSION);
    assert_eq!(a, b);
}

#[test]
fn round_trip_new_convention() {
    let keys = vec![
        DiskAccountingPos::NrInodes,
        DiskAccountingPos::PersistentReserved { nr_replicas: 3 },
        DiskAccountingPos::Replicas {
            data_type: 4,
            nr_devs: 2,
            nr_required: 1,
            devs: vec![5, 7],
        },
        DiskAccountingPos::DevDataType { dev: 1, data_type: 3 },
        DiskAccountingPos::Compression { compression_type: 5 },
        DiskAccountingPos::Snapshot { id: 0xdeadbeef },
        DiskAccountingPos::Btree { id: 11 },
        DiskAccountingPos::RebalanceWork,
        DiskAccountingPos::Inum { inum: 0x1122334455667788 },
        DiskAccountingPos::ReconcileWork { work_type: 1 },
        DiskAccountingPos::DevLeaving { dev: 9 },
        DiskAccountingPos::Unknown(200),
    ];
    for key in keys {
        let raw = encode_position(&key, NEW_VERSION);
        assert_eq!(raw.len(), 20);
        assert_eq!(decode_position(&raw, NEW_VERSION), key, "key {:?}", key);
    }
}

#[test]
fn round_trip_old_convention() {
    let key = DiskAccountingPos::Snapshot { id: 0xdeadbeef };
    let raw = encode_position(&key, OLD_VERSION);
    assert_eq!(decode_position(&raw, OLD_VERSION), key);
}

#[test]
fn endianness_symmetry_concrete() {
    // The same logical key, pre-reversed for the old convention, decodes to
    // the same value as the plain bytes under the new one.
    let raw = padded20(&[0x02, 0x04, 0x02, 0x01, 0x05, 0x07]);
    let mut reversed = raw.clone();
    reversed.reverse();
    assert_eq!(
        decode_position(&raw, NEW_VERSION),
        decode_position(&reversed, OLD_VERSION)
    );
}

#[test]
fn replicas_device_count_is_clipped() {
    // A claimed device count far past the key's end must not be believed.
    let mut raw = padded20(&[0x02, 0x04, 0xc8, 0x01]);
    for i in 4..20 {
        raw[i] = i as u8;
    }
    match decode_position(&raw, NEW_VERSION) {
        DiskAccountingPos::Replicas { nr_devs, devs, .. } => {
            assert_eq!(nr_devs, 200);
            assert_eq!(devs.len(), 16);
            assert_eq!(devs, (4u8..20).collect::<Vec<u8>>());
        }
        other => panic!("wrong variant: {:?}", other),
    }
}

#[test]
fn unknown_discriminator_is_kept() {
    let raw = padded20(&[0x63]);
    assert_eq!(decode_position(&raw, NEW_VERSION), DiskAccountingPos::Unknown(0x63));
}

fn one_entry(words: u8, tag: u8, counters: &[u64]) -> Vec<u8> {
    let mut entry = vec![0u8; words as usize * 8];
    entry[0] = words;
    // the position key sits at bytes 20..40; under the new convention the
    // discriminator is its first byte
    entry[20] = tag;
    for (i, c) in counters.iter().enumerate() {
        entry[40 + 8 * i..48 + 8 * i].copy_from_slice(&c.to_le_bytes());
    }
    entry
}

#[test]
fn accounting_entries_decode() {
    let mut data = one_entry(6, 0, &[7]);
    data.extend_from_slice(&one_entry(7, 7, &[1, 2]));
    let entries = parse_accounting_entries(&data, NEW_VERSION);
    assert_eq!(entries.len(), 2);
    assert_eq!(entries[0].pos, DiskAccountingPos::NrInodes);
    assert_eq!(entries[0].counters, vec![7]);
    assert_eq!(entries[1].pos, DiskAccountingPos::RebalanceWork);
    assert_eq!(entries[1].counters, vec![1, 2]);
    assert_eq!(entries[0].counter(0), 7);
    assert_eq!(entries[0].counter(5), 0);
}

#[test]
fn accounting_entries_stop_at_zero_length() {
    let mut data = one_entry(6, 0, &[7]);
    data.extend_from_slice(&[0u8; 16]);
    let entries = parse_accounting_entries(&data, NEW_VERSION);
    assert_eq!(entries.len(), 1);
}

#[test]
fn accounting_entries_truncated_record_is_dropped() {
    // The second record claims eight words but only four are there.
    let mut data = one_entry(6, 0, &[7]);
    let mut bad = one_entry(8, 0, &[]);
    bad.truncate(32);
    data.extend_from_slice(&bad);
    let entries = parse_accounting_entries(&data, NEW_VERSION);
    assert_eq!(entries.len(), 1);
}

#[test]
fn accounting_entries_old_convention_reverses_key() {
    let mut entry = one_entry(6, 0, &[3]);
    // write the replicas key reversed into bytes 20..40
    let key = padded20(&[0x02, 0x04, 0x01, 0x01, 0x09]);
    let mut rev = key.clone();
    rev.reverse();
    entry[20..40].copy_from_slice(&rev);
    let entries = parse_accounting_entries(&entry, OLD_VERSION);
    assert_eq!(entries.len(), 1);
    assert_eq!(
        entries[0].pos,
        DiskAccountingPos::Replicas {
            data_type: 4,
            nr_devs: 1,
            nr_required: 1,
            devs: vec![9],
        }
    );
}

fn dirent_val(name: &str) -> Vec<u8> {
    let mut v = vec![0u8; 9];
    v[0..8].copy_from_slice(&42u64.to_le_bytes());
    v[8] = 1;
    v.extend_from_slice(name.as_bytes());
    v.push(0);
    v
}

#[test]
fn dirent_name_extracts_up_to_nul() {
    assert_eq!(dirent_name(&dirent_val("file")), Some(b"file".to_vec()));
    // too short for any name
    assert_eq!(dirent_name(&vec![0u8; 9]), None);
    // empty name
    assert_eq!(dirent_name(&dirent_val("")), None);
}

fn key(inode: u64, offset: u64, snapshot: u32, key_type: u8, val: Vec<u8>) -> DirentRecord {
    DirentRecord { inode, offset, snapshot, key_type, val }
}

#[test]
fn snapshot_changes_classify_keys() {
    let keys = vec![
        // an addition in the child snapshot
        key(100, 1, 5, KEY_TYPE_DIRENT, dirent_val("alpha")),
        // a hashed whiteout carries its own name
        key(100, 2, 5, KEY_TYPE_HASH_WHITEOUT, dirent_val("beta")),
        // a plain whiteout's name is recovered from the tree
        key(100, 3, 5, KEY_TYPE_WHITEOUT, Vec::new()),
        key(100, 3, 9, KEY_TYPE_DIRENT, dirent_val("gamma")),
        // out of range: a different snapshot
        key(100, 4, 6, KEY_TYPE_DIRENT, dirent_val("delta")),
        // self-references never count
        key(100, 5, 5, KEY_TYPE_DIRENT, dirent_val(".")),
    ];
    let changes = find_snapshot_changes(&keys, 5, &None);
    let got: Vec<(ChangeKind, String)> =
        changes.into_iter().map(|c| (c.kind, c.path)).collect();
    assert_eq!(
        got,
        vec![
            (ChangeKind::Add, "/alpha".to_string()),
            (ChangeKind::Delete, "/beta".to_string()),
            (ChangeKind::Delete, "/gamma".to_string()),
        ]
    );
}

#[test]
fn snapshot_changes_respect_base_range() {
    let keys = vec![
        key(100, 1, 5, KEY_TYPE_DIRENT, dirent_val("in_range")),
        key(100, 2, 9, KEY_TYPE_DIRENT, dirent_val("at_base")),
        key(100, 3, 7, KEY_TYPE_DIRENT, dirent_val("between")),
    ];
    let changes = find_snapshot_changes(&keys, 5, &Some(9));
    let got: Vec<String> = changes.into_iter().map(|c| c.path).collect();
    assert_eq!(got, vec!["/in_range".to_string(), "/between".to_string()]);
}

#[test]
fn diff_subvolumes_sorts_by_path() {
    let keys = vec![
        key(100, 1, 5, KEY_TYPE_DIRENT, dirent_val("zeta")),
        key(100, 2, 5, KEY_TYPE_DIRENT, dirent_val("alpha")),
        key(100, 3, 5, KEY_TYPE_DIRENT, dirent_val("mu")),
    ];
    let changes = diff_subvolumes(&keys, 5, &None);
    let got: Vec<String> = changes.into_iter().map(|c| c.path).collect();
    assert_eq!(
        got,
        vec!["/alpha".to_string(), "/mu".to_string(), "/zeta".to_string()]
    );
}

#[test]
fn change_kind_letters() {
    assert_eq!(ChangeKind::Add.letter(), "A");
    assert_eq!(ChangeKind::Modify.letter(), "M");
    assert_eq!(ChangeKind::Delete.letter(), "D");
}

#[test]
fn keyring_identifiers() {
    assert_eq!(Keyring::Session.id(), -3);
    assert_eq!(Keyring::User.id(), -4);
    assert_eq!(Keyring::UserSession.id(), -5);
    assert_eq!(Keyring::default().id(), -4);
}

#[test]
fn superblock_encryption_flag() {
    assert!(!sb_is_encrypted(&Sb { crypt: None }));
    assert!(!sb_is_encrypted(&Sb { crypt: Some(SbCrypt { key_magic: BCH_KEY_MAGIC }) }));
    assert!(sb_is_encrypted(&Sb { crypt: Some(SbCrypt { key_magic: 1 }) }));
}

#[test]
fn key_magic_is_the_marker_bytes() {
    assert_eq!(BCH_KEY_MAGIC.to_le_bytes(), *b"bch**key");
    let key = BchKey { key: [1, 2, 3, 4] };
    let enc = unencrypted_key(&key);
    assert_eq!(enc.magic, BCH_KEY_MAGIC);
    assert_eq!(enc.key, key);
}
