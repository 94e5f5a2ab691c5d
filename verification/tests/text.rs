//! Rendering, parsing and byte helpers.

use bcachefs_tools::accounting::{data_type_is_empty, data_type_is_hidden, data_type_str,
    member_state_str};
use bcachefs_tools::attrs::{cmd_setattr, parse_setattr_args, SetattrError};
use bcachefs_tools::bytes::{nul_prefix, read_u32_le, read_u64_le, write_u32_le, write_u64_le};
use bcachefs_tools::devices::{parse_human_size, parse_member_state};
use bcachefs_tools::fmt::{bytes_to_string_lossy, fmt_bytes, fmt_bytes_human, fmt_counter,
    fmt_duration, fmt_num_human, fmt_size, fmt_uuid, is_sectors, u64_to_string};
use bcachefs_tools::inodes::{format_opt, mode_to_type_char, ParentCache};
use bcachefs_tools::handle::{encode_disk_payload, encode_resize_payload, encode_set_state_payload,
    encode_subvolume_payload, DevUsage, DevUsageType};
use bcachefs_tools::iostats::{parse_io_done, parse_u64_digits, split_lines, trim_string};
use bcachefs_tools::printbuf::Printbuf;
use bcachefs_tools::devices::evacuate_data_sectors;

#[test]
fn decimal_rendering() {
    assert_eq!(u64_to_string(0), "0");
    assert_eq!(u64_to_string(7), "7");
    assert_eq!(u64_to_string(1234567890123456789), "1234567890123456789");
    assert_eq!(u64_to_string(u64::MAX), "18446744073709551615");
}

#[test]
fn byte_counts_scale_with_two_digit_fractions() {
    assert_eq!(fmt_bytes_human(0), "0B");
    assert_eq!(fmt_bytes_human(1), "1.00B");
    assert_eq!(fmt_bytes_human(999), "999B");
    assert_eq!(fmt_bytes_human(1023), "1023B");
    assert_eq!(fmt_bytes_human(1024), "1.00K");
    assert_eq!(fmt_bytes_human(1536), "1.50K");
    assert_eq!(fmt_bytes_human(10 * 1024 + 512), "10.5K");
    assert_eq!(fmt_bytes_human(123 * 1024), "123K");
    assert_eq!(fmt_bytes_human(1024 * 1024), "1.00M");
    assert_eq!(fmt_bytes_human(3 * 1024 * 1024 * 1024), "3.00G");
    assert_eq!(fmt_bytes_human(1024u64.pow(4)), "1.00T");
    assert_eq!(fmt_bytes_human(1024u64.pow(5)), "1.00P");
    // past the last unit the number keeps growing
    assert_eq!(fmt_bytes_human(2048 * 1024u64.pow(5)), "2048P");
}

#[test]
fn plain_counts_scale_by_thousands() {
    assert_eq!(fmt_num_human(999), "999");
    assert_eq!(fmt_num_human(1000), "1.00K");
    assert_eq!(fmt_num_human(9999), "9.99K");
    assert_eq!(fmt_num_human(12_345), "12.3K");
    assert_eq!(fmt_num_human(123_456), "123K");
    assert_eq!(fmt_num_human(1_000_000), "1.00M");
    assert_eq!(fmt_num_human(2_500_000_000), "2.50G");
    assert_eq!(fmt_num_human(7_000_000_000_000), "7.00T");
}

#[test]
fn sizes_are_sectors_as_bytes() {
    let mut out = String::new();
    fmt_size(&mut out, 4, false);
    assert_eq!(out, "2048");
    let mut out = String::new();
    fmt_size(&mut out, 4, true);
    assert_eq!(out, "2.00K");
}

#[test]
fn counters_render_by_kind() {
    assert!(is_sectors(2));
    assert!(!is_sectors(1));
    assert_eq!(fmt_counter(4, true, false), "2048");
    assert_eq!(fmt_counter(4, true, true), "2.00K");
    assert_eq!(fmt_counter(9_999, false, true), "9999");
    assert_eq!(fmt_counter(10_000, false, true), "10.0K");
    assert_eq!(fmt_counter(10_000, false, false), "10000");
    assert_eq!(fmt_bytes(2048, true), "2.00K");
    assert_eq!(fmt_bytes(2048, false), "2048");
}

#[test]
fn durations_pick_the_largest_unit_with_two_digits() {
    assert_eq!(fmt_duration(0), "0");
    assert_eq!(fmt_duration(999), "999ns");
    assert_eq!(fmt_duration(9_999), "9999ns");
    assert_eq!(fmt_duration(10_000), "10us");
    assert_eq!(fmt_duration(12_345_678), "12ms");
    assert_eq!(fmt_duration(12_345_678_900), "12s");
}

#[test]
fn identity_bytes_render_hyphenated() {
    let uuid: [u8; 16] = [
        0x12, 0x34, 0x56, 0x78, 0x9a, 0xbc, 0xde, 0xf0, 0x01, 0x23, 0x45, 0x67, 0x89, 0xab,
        0xcd, 0xef,
    ];
    assert_eq!(fmt_uuid(&uuid), "12345678-9abc-def0-0123-456789abcdef");
}

#[test]
fn lossy_text_keeps_plain_bytes() {
    assert_eq!(bytes_to_string_lossy(&b"hello".to_vec()), "hello");
    assert_eq!(bytes_to_string_lossy(&Vec::new()), "");
}

#[test]
fn human_sizes_parse_with_binary_suffixes() {
    assert_eq!(parse_human_size(&"123".to_string()), Some(123));
    assert_eq!(parse_human_size(&"1k".to_string()), Some(1024));
    assert_eq!(parse_human_size(&"1G".to_string()), Some(1 << 30));
    assert_eq!(parse_human_size(&"3T".to_string()), Some(3u64 << 40));
    assert_eq!(parse_human_size(&"15E".to_string()), Some(15u64 << 60));
    assert_eq!(parse_human_size(&"".to_string()), None);
    assert_eq!(parse_human_size(&"G".to_string()), None);
    assert_eq!(parse_human_size(&"12x".to_string()), None);
    assert_eq!(parse_human_size(&"1.5G".to_string()), None);
    // too large for sixty-four bits, with and without a suffix
    assert_eq!(parse_human_size(&"18446744073709551616".to_string()), None);
    assert_eq!(parse_human_size(&"16E".to_string()), None);
    assert_eq!(
        parse_human_size(&"18446744073709551615".to_string()),
        Some(u64::MAX)
    );
}

#[test]
fn member_states_parse_by_name() {
    assert_eq!(parse_member_state(&"rw".to_string()), Some(0));
    assert_eq!(parse_member_state(&"ro".to_string()), Some(1));
    assert_eq!(parse_member_state(&"evacuating".to_string()), Some(2));
    assert_eq!(parse_member_state(&"spare".to_string()), Some(3));
    assert_eq!(parse_member_state(&"broken".to_string()), None);
}

#[test]
fn data_type_predicates_and_names() {
    assert!(data_type_is_empty(0));
    assert!(data_type_is_empty(8));
    assert!(data_type_is_empty(9));
    assert!(!data_type_is_empty(4));
    assert!(data_type_is_hidden(1));
    assert!(data_type_is_hidden(2));
    assert!(!data_type_is_hidden(3));
    assert_eq!(data_type_str(4), "user");
    assert_eq!(data_type_str(0), "free");
    assert_eq!(data_type_str(99), "unknown");
    assert_eq!(member_state_str(0), "rw");
    assert_eq!(member_state_str(2), "evacuating");
    assert_eq!(member_state_str(9), "unknown");
}

#[test]
fn field_writes_land_at_their_offsets() {
    let mut buf = vec![0u8; 16];
    write_u32_le(&mut buf, 0, 0x11223344);
    write_u64_le(&mut buf, 8, 0x5566778899aabbcc);
    assert_eq!(read_u32_le(&buf, 0), 0x11223344);
    assert_eq!(read_u64_le(&buf, 8), 0x5566778899aabbcc);
    assert_eq!(buf[0], 0x44);
    assert_eq!(buf[4], 0);
    assert_eq!(buf[8], 0xcc);
}

#[test]
fn nul_prefix_stops_at_the_first_zero() {
    assert_eq!(nul_prefix(&b"abc\0def".to_vec()), b"abc".to_vec());
    assert_eq!(nul_prefix(&b"abc".to_vec()), b"abc".to_vec());
    assert_eq!(nul_prefix(&b"\0abc".to_vec()), Vec::<u8>::new());
    assert_eq!(nul_prefix(&Vec::new()), Vec::<u8>::new());
}

#[test]
fn payload_encoders_freeze_their_layouts() {
    let p = encode_disk_payload(0x1c, 3);
    assert_eq!(p.len(), 16);
    assert_eq!(&p[0..4], &0x1cu32.to_le_bytes());
    assert_eq!(&p[8..16], &3u64.to_le_bytes());

    let p = encode_set_state_payload(16, 2, 1);
    assert_eq!(p.len(), 16);
    assert_eq!(p[4], 2);
    assert_eq!(&p[8..16], &1u64.to_le_bytes());

    let p = encode_resize_payload(16, 1, 5000);
    assert_eq!(p.len(), 24);
    assert_eq!(&p[16..24], &5000u64.to_le_bytes());

    let p = encode_subvolume_payload(1, 0xffff_9c00, 0o777);
    assert_eq!(p.len(), 32);
    assert_eq!(&p[0..4], &1u32.to_le_bytes());
    assert_eq!(&p[4..8], &0xffff_9c00u32.to_le_bytes());
    assert_eq!(u16::from_le_bytes(p[8..10].try_into().unwrap()), 0o777);
    // the name addresses are left zero for the port to patch
    assert_eq!(&p[16..32], &[0u8; 16]);
}

#[test]
fn printbuf_lays_out_tabs_and_lines() {
    let mut pb = Printbuf::new();
    pb.tabstop_push(8);
    pb.tabstop_push(4);
    pb.write_str("ab");
    pb.tab();
    pb.write_str("cd");
    pb.tab();
    pb.write_str("e");
    assert_eq!(pb.as_raw().as_slice(), b"ab      cd  e");
    pb.indent_add(2);
    pb.newline();
    pb.write_str("f");
    assert_eq!(pb.as_raw().as_slice(), b"ab      cd  e\n  f");
}

#[test]
fn printbuf_right_justifies_a_field() {
    let mut pb = Printbuf::new();
    pb.tabstop_push(6);
    pb.write_str("ab");
    pb.tab_rjust();
    assert_eq!(pb.as_raw().as_slice(), b"    ab");
}

#[test]
fn printbuf_writes_numbers_by_mode() {
    let mut pb = Printbuf::new();
    pb.units_u64(2048);
    pb.set_human_readable(true);
    pb.write_str(" ");
    pb.units_u64(2048);
    assert_eq!(pb.as_raw().as_slice(), b"2048 2.00K");
}

#[test]
fn printbuf_write_str_interprets_layout_characters() {
    let mut pb = Printbuf::new();
    pb.tabstop_push(4);
    pb.write_str("a\tb\nc");
    assert_eq!(pb.as_raw().as_slice(), b"a   b\nc");
}

#[test]
fn evacuation_counts_only_user_visible_data() {
    let t = |sectors: u64| DevUsageType { buckets: 0, sectors, fragmented: 0 };
    // indexes: 0 free, 1 sb, 2 journal, 3 btree, 4 user
    let usage = DevUsage {
        state: 0,
        bucket_size: 512,
        nr_buckets: 10,
        data_types: vec![t(100), t(200), t(300), t(7), t(5)],
    };
    assert_eq!(evacuate_data_sectors(&usage), 12);
}

#[test]
fn io_statistics_fold_both_directions() {
    let text = "read:\n\
                sb          :       12345\n\
                journal     :           0\n\
                user        :        4096\n\
                write:\n\
                sb          :         777\n\
                user        :        8192\n";
    let entries = parse_io_done(&"vda".to_string(), &text.to_string());
    let got: Vec<(String, u64, u64)> = entries
        .into_iter()
        .map(|e| (e.label, e.read_bytes, e.write_bytes))
        .collect();
    assert_eq!(
        got,
        vec![
            ("vda/sb".to_string(), 12345, 777),
            ("vda/user".to_string(), 4096, 8192),
        ]
    );
}

#[test]
fn io_statistics_skip_unparsable_lines() {
    let text = "read:\nuser : what\nuser : 5\n";
    let entries = parse_io_done(&"vdb".to_string(), &text.to_string());
    assert_eq!(entries.len(), 1);
    assert_eq!(entries[0].label, "vdb/user");
    assert_eq!(entries[0].read_bytes, 5);
    assert_eq!(entries[0].write_bytes, 0);
}

#[test]
fn line_and_text_helpers() {
    assert_eq!(split_lines(&"a\nb\n".to_string()), vec!["a", "b"]);
    assert_eq!(split_lines(&"a\n\nb".to_string()), vec!["a", "", "b"]);
    assert_eq!(split_lines(&"".to_string()), Vec::<String>::new());
    assert_eq!(trim_string(&"  x y\t\r".to_string()), "x y");
    assert_eq!(trim_string(&"   ".to_string()), "");
    assert_eq!(parse_u64_digits(&"1234".to_string()), Some(1234));
    assert_eq!(parse_u64_digits(&"".to_string()), None);
    assert_eq!(parse_u64_digits(&"12a".to_string()), None);
    assert_eq!(parse_u64_digits(&"99999999999999999999".to_string()), None);
}

fn strs(v: &[&str]) -> Vec<String> {
    v.iter().map(|s| s.to_string()).collect()
}

#[test]
fn setattr_arguments_parse_in_their_three_shapes() {
    let valid = strs(&["compression", "data_replicas", "noatime"]);
    let argv = strs(&[
        "prog",
        "--compression=lz4",
        "--data_replicas",
        "2",
        "f1",
        "f2",
        "--noatime",
    ]);
    let args = cmd_setattr(&argv, &valid).unwrap();
    assert!(!args.remove_all);
    assert_eq!(
        args.opts,
        vec![
            ("compression".to_string(), "lz4".to_string()),
            ("data_replicas".to_string(), "2".to_string()),
            ("noatime".to_string(), "1".to_string()),
        ]
    );
    assert_eq!(args.files, strs(&["f1", "f2"]));
    // a bare switch takes the next argument as its value when one follows
    let args = cmd_setattr(&strs(&["prog", "--noatime", "f1", "f2"]), &valid).unwrap();
    assert_eq!(args.opts, vec![("noatime".to_string(), "f1".to_string())]);
    assert_eq!(args.files, strs(&["f2"]));
}

#[test]
fn setattr_arguments_reject_what_they_should() {
    let valid = strs(&["compression"]);
    assert_eq!(
        cmd_setattr(&strs(&["prog", "--bogus=1", "f"]), &valid),
        Err(SetattrError::InvalidOption("bogus".to_string()))
    );
    assert_eq!(
        cmd_setattr(&strs(&["prog", "-x", "f"]), &valid),
        Err(SetattrError::InvalidOption("-x".to_string()))
    );
    assert_eq!(
        cmd_setattr(&strs(&["prog", "--help"]), &valid),
        Err(SetattrError::Help)
    );
    assert_eq!(
        cmd_setattr(&strs(&["prog", "--compression=lz4"]), &valid),
        Err(SetattrError::NoFiles)
    );
}

#[test]
fn setattr_arguments_edge_shapes() {
    let valid = strs(&["compression"]);
    // a bare dash is a file, and a dashed follower is not a value
    let args = parse_setattr_args(&strs(&["prog", "--remove-all", "-"]), &valid).unwrap();
    assert!(args.remove_all);
    assert_eq!(args.files, strs(&["-"]));
    assert_eq!(
        parse_setattr_args(&strs(&["prog", "--compression", "-5"]), &valid),
        Err(SetattrError::InvalidOption("-5".to_string()))
    );
}

#[test]
fn mode_letters_follow_the_format_bits() {
    assert_eq!(mode_to_type_char(0o040755), 'd');
    assert_eq!(mode_to_type_char(0o100644), '-');
    assert_eq!(mode_to_type_char(0o120777), 'l');
    assert_eq!(mode_to_type_char(0o060660), 'b');
    assert_eq!(mode_to_type_char(0o020620), 'c');
    assert_eq!(mode_to_type_char(0o010644), 'p');
    assert_eq!(mode_to_type_char(0o140755), 's');
    assert_eq!(mode_to_type_char(0o000644), '?');
}

#[test]
fn attribute_rendering_unbias_and_names() {
    assert_eq!(format_opt(&"bi_compression".to_string(), 2), "compression=lz4");
    assert_eq!(format_opt(&"bi_compression".to_string(), 1), "compression=none");
    assert_eq!(format_opt(&"bi_data_checksum".to_string(), 4), "data_checksum=xxhash");
    assert_eq!(format_opt(&"bi_data_replicas".to_string(), 3), "data_replicas=2");
    assert_eq!(format_opt(&"custom".to_string(), 0), "custom=0");
}

#[test]
fn parent_cache_orders_and_deduplicates() {
    let mut cache = ParentCache::new();
    cache.push(9, 100, 1);
    cache.push(3, 200, 2);
    cache.push(9, 300, 3);
    cache.push(5, 0, 4);  // no directory: not recorded
    cache.push(5, 400, 5);
    assert_eq!(cache.len(), 4);
    cache.finalize();
    assert_eq!(cache.len(), 3);
    assert_eq!(cache.data, vec![(3, 200, 2), (5, 400, 5), (9, 100, 1)]);
}
