use bsd_xtcp::clock::timestamp_ns_from;
use bsd_xtcp::convert::{
    build_batch, build_batch_with_sys_stats, count_states, hostname_or_unknown, local_host_info,
    HostInfo,
    TOOL_VERSION,
};
use bsd_xtcp::exporter::collector::{count_state_names, snapshot_of, state_name};
use bsd_xtcp::platform::freebsd::{
    check_version, collect as freebsd_collect, enrich_with_pid_mapping, parse_kern_file,
    parse_kld_records, read_capacity,
};
use bsd_xtcp::platform::freebsd_layout::{TcpstatsVersion, DTYPE_SOCKET, TCP_STATS_VERSION};
use bsd_xtcp::platform::macos::{collect as macos_collect, pcblist_tags_well_formed};
use bsd_xtcp::platform::stub::collect as stub_collect;
use bsd_xtcp::platform::CollectError;
use bsd_xtcp::proto::{Platform, TcpSocketRecord};
use bsd_xtcp::record::RawSocketRecord;
use bsd_xtcp::sysctl::{SysctlError, TcpSysStats};
use std::time::Instant;

/// A 320-byte KLD record for an IPv4 socket at kernel address `so_addr`.
fn kld_record(version: u32, state: i32, so_addr: u64) -> Vec<u8> {
    let mut buf = vec![0u8; 320];
    buf[0..4].copy_from_slice(&version.to_le_bytes());
    buf[4..8].copy_from_slice(&320u32.to_le_bytes());
    buf[16] = 2;
    buf[20..22].copy_from_slice(&8080u16.to_le_bytes());
    buf[22..24].copy_from_slice(&443u16.to_le_bytes());
    buf[24..28].copy_from_slice(&[127, 0, 0, 1]);
    buf[40..44].copy_from_slice(&[10, 0, 0, 1]);
    buf[56..60].copy_from_slice(&state.to_le_bytes());
    buf[248..256].copy_from_slice(&so_addr.to_le_bytes());
    buf
}

/// One `struct xfile` entry of 128 bytes.
fn xfile(kind: u16, pid: i32, fd: i32, data: u64) -> Vec<u8> {
    let mut e = vec![0u8; 128];
    e[0..8].copy_from_slice(&128u64.to_le_bytes());
    e[8..12].copy_from_slice(&pid.to_le_bytes());
    e[16..20].copy_from_slice(&fd.to_le_bytes());
    e[24..26].copy_from_slice(&kind.to_le_bytes());
    e[40..48].copy_from_slice(&data.to_le_bytes());
    e
}

fn record_with_state(state: Option<i32>) -> RawSocketRecord {
    let mut r = RawSocketRecord::empty();
    r.state = state;
    r
}

fn host() -> HostInfo {
    HostInfo {
        hostname: "h1".to_string(),
        os_version: "14.1".to_string(),
        platform: Platform::Freebsd.as_i32(),
        data_sources: vec![5, 6],
    }
}

#[test]
fn freebsd_collect_joins_pid_map() {
    let mut records = kld_record(TCP_STATS_VERSION, 4, 0xDEAD_BEEF);
    records.extend(kld_record(TCP_STATS_VERSION, 1, 0x1234));
    let mut kern = xfile(DTYPE_SOCKET, 42, 7, 0xDEAD_BEEF);
    kern.extend(xfile(DTYPE_SOCKET, 99, 8, 0xDEAD_BEEF));
    kern.extend(xfile(1, 5, 5, 0x1234));

    let c = freebsd_collect(&records, Some(&kern), &Instant::now()).unwrap();
    assert_eq!(c.generation, 2);
    assert_eq!(c.records.len(), 2);
    assert_eq!(c.records[0].socket_id, Some(0xDEAD_BEEF));
    assert_eq!(c.records[0].pid, Some(42));
    assert_eq!(c.records[0].fd, Some(7));
    assert_eq!(c.records[0].sources, vec![5, 6]);
    assert_eq!(c.records[1].pid, None);
    assert_eq!(c.records[1].sources, vec![5]);

    let c = freebsd_collect(&records, None, &Instant::now()).unwrap();
    assert_eq!(c.records[0].pid, None);
    assert_eq!(c.records[0].sources, vec![5]);
}

#[test]
fn freebsd_collect_errors() {
    let bad = kld_record(2, 4, 1);
    assert!(matches!(
        freebsd_collect(&bad, None, &Instant::now()),
        Err(CollectError::VersionMismatch { expected: 1, got: 2 })
    ));
    assert!(matches!(
        freebsd_collect(&[0u8; 100], None, &Instant::now()),
        Err(CollectError::Parse { offset: 0, .. })
    ));
    let c = freebsd_collect(&[], Some(&[]), &Instant::now()).unwrap();
    assert_eq!(c.generation, 0);
    assert!(c.records.is_empty());
}

#[test]
fn freebsd_enrichment_is_idempotent() {
    let mut records = parse_kld_records(&kld_record(TCP_STATS_VERSION, 4, 0xAB)).unwrap();
    let map = parse_kern_file(&xfile(DTYPE_SOCKET, 3, 4, 0xAB)).unwrap();
    enrich_with_pid_mapping(&mut records, &map);
    enrich_with_pid_mapping(&mut records, &map);
    assert_eq!(records[0].pid, Some(3));
    assert_eq!(records[0].fd, Some(4));
    assert_eq!(records[0].sources, vec![5, 6]);
}

#[test]
fn freebsd_version_and_capacity() {
    let ok = TcpstatsVersion { protocol_version: TCP_STATS_VERSION, ..Default::default() };
    assert!(check_version(&ok).is_ok());
    let bad = TcpstatsVersion { protocol_version: 7, ..Default::default() };
    assert!(matches!(
        check_version(&bad),
        Err(CollectError::VersionMismatch { expected: 1, got: 7 })
    ));
    assert_eq!(read_capacity(0), 65536);
    assert_eq!(read_capacity(100), 65536);
    assert_eq!(read_capacity(1000), (1000 + 200 + 64) * 320);
}

#[test]
fn macos_collect_passes_generation() {
    let mut buf = vec![0u8; 24];
    buf[0..4].copy_from_slice(&24u32.to_le_bytes());
    buf[8..16].copy_from_slice(&42u64.to_le_bytes());
    let trailer = buf.clone();
    buf.extend_from_slice(&trailer);
    assert!(pcblist_tags_well_formed(&buf));
    let c = macos_collect(&buf, 42, 100, &Instant::now()).unwrap();
    assert_eq!(c.generation, 42);
    assert!(c.records.is_empty());
    assert!(macos_collect(&[1, 2], 0, 100, &Instant::now()).is_err());
}

#[test]
fn macos_short_record_detected() {
    let mut buf = vec![0u8; 24];
    buf[0..4].copy_from_slice(&24u32.to_le_bytes());
    // A record whose length (4) is shorter than its own tag header.
    buf.extend_from_slice(&4u32.to_le_bytes());
    buf.extend_from_slice(&1u32.to_le_bytes());
    buf.extend_from_slice(&[0u8; 24]);
    assert!(!pcblist_tags_well_formed(&buf));
}

#[test]
fn stub_collect_unsupported() {
    assert!(matches!(stub_collect(), Err(CollectError::UnsupportedPlatform)));
}

#[test]
fn state_names() {
    assert_eq!(state_name(0), "CLOSED");
    assert_eq!(state_name(4), "ESTABLISHED");
    assert_eq!(state_name(10), "TIME_WAIT");
    assert_eq!(state_name(11), "UNKNOWN");
    assert_eq!(state_name(-1), "UNKNOWN");
}

#[test]
fn state_name_counts_ordered_by_name() {
    let records = vec![
        record_with_state(Some(4)),
        record_with_state(Some(10)),
        record_with_state(Some(4)),
        record_with_state(None),
        record_with_state(Some(5)),
        record_with_state(Some(0)),
        record_with_state(Some(42)),
    ];
    let counts = count_state_names(&records);
    let expected: Vec<(String, u64)> = vec![
        ("CLOSED".to_string(), 1),
        ("CLOSE_WAIT".to_string(), 1),
        ("ESTABLISHED".to_string(), 2),
        ("TIME_WAIT".to_string(), 1),
        ("UNKNOWN".to_string(), 2),
    ];
    assert_eq!(counts, expected);
    assert_eq!(counts.iter().map(|c| c.1).sum::<u64>(), records.len() as u64);

    let snap = snapshot_of(&records, TcpSysStats { drops: 3, ..Default::default() });
    assert_eq!(snap.total_sockets, 7);
    assert_eq!(snap.state_counts, expected);
    assert_eq!(snap.sys_stats.drops, 3);
    assert!(count_state_names(&[]).is_empty());
}

#[test]
fn host_info_from_reader() {
    let reader = |name: &str| -> Result<Vec<u8>, SysctlError> {
        assert_eq!(name, "kern.osproductversion");
        Ok(b"14.1-RELEASE\0".to_vec())
    };
    let h = local_host_info(Platform::Freebsd, &reader);
    assert_eq!(h.platform, 2);
    assert_eq!(h.data_sources, vec![5, 6]);
    assert_eq!(h.os_version, "14.1-RELEASE");

    let h = local_host_info(Platform::Macos, &reader);
    assert_eq!(h.platform, 1);
    assert_eq!(h.data_sources, vec![1]);

    let failing = |_: &str| -> Result<Vec<u8>, SysctlError> { Err(SysctlError::UnsupportedPlatform) };
    let h = local_host_info(Platform::Unknown, &failing);
    assert_eq!(h.platform, 0);
    assert!(h.data_sources.is_empty());
    assert_eq!(h.os_version, "unknown");
}

#[test]
fn batch_metadata_and_summary() {
    let raw = vec![record_with_state(Some(4)), record_with_state(Some(4)), record_with_state(None)];
    let b = build_batch(&raw, 9, 1234, 3, 500, &host());
    let m = b.metadata.unwrap();
    assert_eq!(m.hostname, "h1");
    assert_eq!(m.os_version, "14.1");
    assert_eq!(m.platform, 2);
    assert_eq!(m.data_sources, vec![5, 6]);
    assert_eq!(m.interval_ms, 500);
    assert_eq!(m.schedule_name, "");
    assert_eq!(m.collection_duration_ns, 1234);
    assert_eq!(m.pcblist_generation, Some(9));
    assert_eq!(m.batch_sequence, 3);
    assert_eq!(m.tool_version, TOOL_VERSION);
    assert_eq!(TOOL_VERSION, "bsd-xtcp 0.1.0");
    assert_eq!(b.records.len(), 3);
    assert_eq!(b.records[0].state, 5);
    assert_eq!(b.records[2].state, 0);
    let s = b.summary.unwrap();
    assert_eq!(s.total_sockets, 3);
    assert_eq!(s.interval_ms, 500);
    assert_eq!(s.delta_drops, None);
    let total: u32 = s.state_counts.iter().map(|c| c.count).sum();
    assert_eq!(total, 3);
}

#[test]
fn batch_with_sys_stats_rates() {
    let raw = vec![record_with_state(Some(1))];
    let sys = TcpSysStats { sndtotal: 0, rcvtotal: 8, rcvduppack: 2, ..Default::default() };
    let b = build_batch_with_sys_stats(&raw, 1, 0, 1, 1000, &sys, &host());
    let s = b.summary.unwrap();
    assert_eq!(s.delta_snd_total_packets, Some(0));
    assert_eq!(s.delta_rcv_dup_packets, Some(2));
    assert!(s.retransmit_rate.is_none());
    let d = s.duplicate_rate.unwrap();
    assert_eq!(d.numerator, 2);
    assert_eq!(d.denominator, 8);
}

#[test]
fn state_counts_add_up() {
    let records: Vec<TcpSocketRecord> = [5, 5, 11, 0, 2, 5]
        .iter()
        .map(|&s| TcpSocketRecord { state: s, ..Default::default() })
        .collect();
    let buckets = count_states(&records);
    let total: u32 = buckets.iter().map(|b| b.count).sum();
    assert_eq!(total, 6);
    let states: Vec<i32> = buckets.iter().map(|b| b.state).collect();
    assert_eq!(states, vec![0, 2, 5, 11]);
}

#[test]
fn timestamps_from_clock_readings() {
    assert_eq!(timestamp_ns_from(None), 0);
    assert_eq!(timestamp_ns_from(Some(1_700_000_000_123_456_789)), 1_700_000_000_123_456_789);
    assert_eq!(timestamp_ns_from(Some((1u128 << 64) + 5)), 5);
}

#[test]
fn macos_collect_passes_parser_errors() {
    match macos_collect(&[1, 2, 3], 0, 100, &Instant::now()) {
        Err(CollectError::Truncated { offset: 0, need: 4, have: 3 }) => {}
        other => panic!("unexpected {other:?}"),
    }
    let mut buf = vec![0u8; 24];
    buf[0..4].copy_from_slice(&100u32.to_le_bytes());
    match macos_collect(&buf, 0, 100, &Instant::now()) {
        Err(CollectError::Parse { offset: 0, message }) => {
            assert_eq!(message, "invalid header length: 100")
        }
        other => panic!("unexpected {other:?}"),
    }
}

#[test]
fn macos_one_record_per_socket_tag() {
    // Header, then: a stats record before any socket (ignored), two sockets,
    // an unknown kind (skipped), and the end marker.
    let mut buf = vec![0u8; 24];
    buf[0..4].copy_from_slice(&24u32.to_le_bytes());
    let tag = |kind: u32, body_len: usize| {
        let mut t = Vec::new();
        t.extend_from_slice(&((8 + body_len) as u32).to_le_bytes());
        t.extend_from_slice(&kind.to_le_bytes());
        t.resize(8 + body_len, 0);
        t.resize((8 + body_len + 7) / 8 * 8, 0);
        t
    };
    buf.extend(tag(0x008, 8));
    buf.extend(tag(0x001, 80));
    buf.extend(tag(0x001, 80));
    buf.extend(tag(0x400, 8));
    buf.extend(vec![0u8; 24]);
    assert!(pcblist_tags_well_formed(&buf));
    let c = macos_collect(&buf, 1, 100, &Instant::now()).unwrap();
    assert_eq!(c.records.len(), 2);
    assert!(c.records.iter().all(|r| r.sources == vec![1]));
}

#[test]
fn host_names() {
    assert_eq!(hostname_or_unknown(Some("h".to_string())), "h");
    assert_eq!(hostname_or_unknown(None), "unknown");
}
