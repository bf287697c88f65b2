use bsd_xtcp::platform::freebsd::{parse_kern_file, parse_kld_records};
use bsd_xtcp::platform::freebsd_layout::{
    extract_nul_string, TcpStatsRecord, TcpstatsVersion, AF_INET, AF_INET6,
    DATA_SOURCE_FREEBSD_KLD, DTYPE_SOCKET, TCPSTATS_RESET, TCPSTATS_VERSION_CMD,
    TCP_STATS_CC_MAXLEN, TCP_STATS_RECORD_SIZE, TCP_STATS_VERSION, TSR_F_IPV6,
};
use bsd_xtcp::platform::CollectError;
use bsd_xtcp::record::IpAddr;

/// Helper: build a minimal 320-byte KLD record buffer.
fn make_kld_record(af: u8, local_port: u16, remote_port: u16, state: i32, cc: &str) -> Vec<u8> {
    let mut buf = vec![0u8; TCP_STATS_RECORD_SIZE];

    // Version
    buf[0..4].copy_from_slice(&TCP_STATS_VERSION.to_ne_bytes());
    // Length
    buf[4..8].copy_from_slice(&(TCP_STATS_RECORD_SIZE as u32).to_ne_bytes());

    // Flags (set TSR_F_IPV6 if AF_INET6)
    let flags: u32 = if af == AF_INET6 { TSR_F_IPV6 } else { 0 };
    buf[8..12].copy_from_slice(&flags.to_ne_bytes());

    // AF
    buf[16] = af;

    // Ports (native endian as stored by KLD)
    buf[20..22].copy_from_slice(&local_port.to_ne_bytes());
    buf[22..24].copy_from_slice(&remote_port.to_ne_bytes());

    // Local addr (offset 24..40)
    if af == AF_INET {
        buf[24..28].copy_from_slice(&[127, 0, 0, 1]);
    } else {
        buf[24] = 0xfe;
        buf[25] = 0x80;
        buf[39] = 1;
    }

    // Remote addr (offset 40..56)
    if af == AF_INET {
        buf[40..44].copy_from_slice(&[10, 0, 0, 1]);
    } else {
        buf[40] = 0x20;
        buf[41] = 0x01;
        buf[55] = 2;
    }

    // State (offset 56..60)
    buf[56..60].copy_from_slice(&state.to_ne_bytes());

    // CC algo (offset 84..100)
    let cc_bytes = cc.as_bytes();
    let cc_len = cc_bytes.len().min(TCP_STATS_CC_MAXLEN);
    buf[84..84 + cc_len].copy_from_slice(&cc_bytes[..cc_len]);

    // RTT = 15000 us at offset 116
    buf[116..120].copy_from_slice(&15000u32.to_ne_bytes());

    // snd_cwnd = 65535 at offset 64
    buf[64..68].copy_from_slice(&65535u32.to_ne_bytes());

    // so_addr at offset 248
    buf[248..256].copy_from_slice(&0xDEAD_BEEF_u64.to_ne_bytes());

    // uid = 1000 at offset 256
    buf[256..260].copy_from_slice(&1000u32.to_ne_bytes());

    buf
}

#[test]
fn test_parse_kld_empty_buffer() {
    let result = parse_kld_records(&[]);
    assert!(result.is_ok());
    assert_eq!(result.unwrap().len(), 0);
}

#[test]
fn test_parse_kld_single_ipv4() {
    let buf = make_kld_record(AF_INET, 8080, 443, 4, "cubic");
    let records = parse_kld_records(&buf).unwrap();
    assert_eq!(records.len(), 1);

    let rec = &records[0];
    assert_eq!(rec.ip_version, Some(4));
    assert_eq!(rec.local_port, Some(8080));
    assert_eq!(rec.remote_port, Some(443));
    assert_eq!(rec.state, Some(4)); // ESTABLISHED
    assert_eq!(rec.local_addr, Some(IpAddr::V4([127, 0, 0, 1])));
    assert_eq!(rec.remote_addr, Some(IpAddr::V4([10, 0, 0, 1])));
    assert_eq!(rec.cc_algo, Some("cubic".to_string()));
    assert_eq!(rec.rtt_us, Some(15000));
    assert_eq!(rec.snd_cwnd, Some(65535));
    assert_eq!(rec.uid, Some(1000));
    assert_eq!(rec.socket_id, Some(0xDEAD_BEEF));
    assert_eq!(rec.sources, vec![DATA_SOURCE_FREEBSD_KLD]);
}

#[test]
fn test_parse_kld_single_ipv6() {
    let buf = make_kld_record(AF_INET6, 80, 12345, 4, "newreno");
    let records = parse_kld_records(&buf).unwrap();
    assert_eq!(records.len(), 1);

    let rec = &records[0];
    assert_eq!(rec.ip_version, Some(6));
    assert_eq!(rec.local_port, Some(80));
    assert_eq!(rec.remote_port, Some(12345));
    assert_eq!(rec.cc_algo, Some("newreno".to_string()));

    // Verify IPv6 addresses
    if let Some(IpAddr::V6(addr)) = &rec.local_addr {
        assert_eq!(addr[0], 0xfe);
        assert_eq!(addr[1], 0x80);
        assert_eq!(addr[15], 1);
    } else {
        panic!("expected IPv6 local address");
    }
}

#[test]
fn test_parse_kld_multiple_records() {
    let mut buf = Vec::new();
    buf.extend_from_slice(&make_kld_record(AF_INET, 80, 1000, 4, "cubic"));
    buf.extend_from_slice(&make_kld_record(AF_INET, 443, 2000, 1, "newreno"));
    buf.extend_from_slice(&make_kld_record(AF_INET6, 8080, 3000, 10, "cubic"));

    let records = parse_kld_records(&buf).unwrap();
    assert_eq!(records.len(), 3);
    assert_eq!(records[0].local_port, Some(80));
    assert_eq!(records[1].local_port, Some(443));
    assert_eq!(records[2].local_port, Some(8080));
    assert_eq!(records[2].ip_version, Some(6));
}

#[test]
fn test_parse_kld_version_mismatch() {
    let mut buf = make_kld_record(AF_INET, 80, 443, 4, "cubic");
    // Set version to 99
    buf[0..4].copy_from_slice(&99u32.to_ne_bytes());

    let result = parse_kld_records(&buf);
    assert!(result.is_err());
    match result.unwrap_err() {
        CollectError::VersionMismatch { expected, got } => {
            assert_eq!(expected, 1);
            assert_eq!(got, 99);
        }
        e => panic!("expected VersionMismatch, got {:?}", e),
    }
}

#[test]
fn test_parse_kld_bad_alignment() {
    // 319 bytes is not a multiple of 320
    let buf = vec![0u8; 319];
    let result = parse_kld_records(&buf);
    assert!(result.is_err());
    match result.unwrap_err() {
        CollectError::Parse { .. } => {}
        e => panic!("expected Parse error, got {:?}", e),
    }
}

#[test]
fn test_timer_normalization() {
    let mut buf = make_kld_record(AF_INET, 80, 443, 4, "cubic");
    // tsr_tt_rexmt starts at offset 208 in the packed layout.
    let timer_offset = 208;
    buf[timer_offset..timer_offset + 4].copy_from_slice(&(-1i32).to_ne_bytes());

    let records = parse_kld_records(&buf).unwrap();
    assert_eq!(records[0].timer_rexmt_ms, Some(0)); // negative normalized to 0
}

#[test]
fn test_cc_algo_string_extraction() {
    let buf = make_kld_record(AF_INET, 80, 443, 4, "cubic");
    let records = parse_kld_records(&buf).unwrap();
    assert_eq!(records[0].cc_algo, Some("cubic".to_string()));

    // Empty CC algo
    let buf2 = make_kld_record(AF_INET, 80, 443, 4, "");
    let records2 = parse_kld_records(&buf2).unwrap();
    assert_eq!(records2[0].cc_algo, None);
}

#[test]
fn test_parse_kern_file_socket_entry() {
    // Build a synthetic kern.file buffer with one xfile entry for a socket.
    let stride: u64 = 128; // typical stride
    let mut entry = vec![0u8; stride as usize];

    // xf_size at offset 0
    entry[0..8].copy_from_slice(&stride.to_ne_bytes());
    // xf_pid at offset 8
    entry[8..12].copy_from_slice(&42i32.to_ne_bytes());
    // xf_fd at offset 16
    entry[16..20].copy_from_slice(&7i32.to_ne_bytes());
    // xf_type at offset 24 = DTYPE_SOCKET
    entry[24..26].copy_from_slice(&DTYPE_SOCKET.to_ne_bytes());
    // xf_data at offset 40 = socket address
    entry[40..48].copy_from_slice(&0xCAFE_BABEu64.to_ne_bytes());

    let map = parse_kern_file(&entry).unwrap();
    assert_eq!(map.len(), 1);
    assert_eq!(map.get(&0xCAFE_BABE), Some(&(42, 7)));
}

#[test]
fn test_parse_kern_file_non_socket_skipped() {
    let stride: u64 = 128;
    let mut entry = vec![0u8; stride as usize];
    entry[0..8].copy_from_slice(&stride.to_ne_bytes());
    entry[8..12].copy_from_slice(&42i32.to_ne_bytes());
    entry[16..20].copy_from_slice(&7i32.to_ne_bytes());
    // xf_type = 1 (DTYPE_VNODE, not socket)
    entry[24..26].copy_from_slice(&1u16.to_ne_bytes());
    entry[40..48].copy_from_slice(&0xCAFE_BABEu64.to_ne_bytes());

    let map = parse_kern_file(&entry).unwrap();
    assert_eq!(map.len(), 0);
}

#[test]
fn test_parse_kern_file_first_pid_wins() {
    let stride: u64 = 128;
    let mut buf = Vec::new();

    // First entry: pid=42, fd=3
    let mut e1 = vec![0u8; stride as usize];
    e1[0..8].copy_from_slice(&stride.to_ne_bytes());
    e1[8..12].copy_from_slice(&42i32.to_ne_bytes());
    e1[16..20].copy_from_slice(&3i32.to_ne_bytes());
    e1[24..26].copy_from_slice(&DTYPE_SOCKET.to_ne_bytes());
    e1[40..48].copy_from_slice(&0x1234u64.to_ne_bytes());
    buf.extend_from_slice(&e1);

    // Second entry: same socket, pid=99, fd=5
    let mut e2 = vec![0u8; stride as usize];
    e2[0..8].copy_from_slice(&stride.to_ne_bytes());
    e2[8..12].copy_from_slice(&99i32.to_ne_bytes());
    e2[16..20].copy_from_slice(&5i32.to_ne_bytes());
    e2[24..26].copy_from_slice(&DTYPE_SOCKET.to_ne_bytes());
    e2[40..48].copy_from_slice(&0x1234u64.to_ne_bytes());
    buf.extend_from_slice(&e2);

    let map = parse_kern_file(&buf).unwrap();
    assert_eq!(map.get(&0x1234), Some(&(42, 3))); // first wins
}

#[test]
fn test_kld_field_mapping() {
    let mut buf = make_kld_record(AF_INET, 8080, 443, 4, "cubic");

    // snd_ssthresh at offset 68
    buf[68..72].copy_from_slice(&1000u32.to_ne_bytes());
    // snd_wnd at offset 72
    buf[72..76].copy_from_slice(&2000u32.to_ne_bytes());
    // rcv_wnd at offset 76
    buf[76..80].copy_from_slice(&3000u32.to_ne_bytes());
    // maxseg at offset 80
    buf[80..84].copy_from_slice(&1460u32.to_ne_bytes());

    // rttvar at offset 120
    buf[120..124].copy_from_slice(&500u32.to_ne_bytes());
    // rto at offset 124
    buf[124..128].copy_from_slice(&200000u32.to_ne_bytes());
    // rttmin at offset 128
    buf[128..132].copy_from_slice(&1000u32.to_ne_bytes());

    let records = parse_kld_records(&buf).unwrap();
    let rec = &records[0];

    assert_eq!(rec.snd_ssthresh, Some(1000));
    assert_eq!(rec.snd_wnd, Some(2000));
    assert_eq!(rec.rcv_wnd, Some(3000));
    assert_eq!(rec.maxseg, Some(1460));
    assert_eq!(rec.rttvar_us, Some(500));
    assert_eq!(rec.rto_us, Some(200000));
    assert_eq!(rec.rtt_min_us, Some(1000));
}

#[test]
fn test_record_size() {
    assert_eq!(std::mem::size_of::<TcpStatsRecord>(), 320);
}

#[test]
fn test_version_struct_size() {
    assert_eq!(std::mem::size_of::<TcpstatsVersion>(), 16);
}

#[test]
fn test_ioctl_constants() {
    // TCPSTATS_VERSION_CMD = _IOR('T', 1, struct tcpstats_version)
    // = IOC_OUT | ((16 & 0x1FFF) << 16) | ('T' << 8) | 1 = 0x40105401
    assert_eq!(TCPSTATS_VERSION_CMD, 0x4010_5401);

    // TCPSTATS_RESET = _IO('T', 3) = IOC_VOID | 0 | ('T' << 8) | 3 = 0x20005403
    assert_eq!(TCPSTATS_RESET, 0x2000_5403);
}

#[test]
fn test_extract_nul_string() {
    let mut buf = [0u8; 16];
    buf[..5].copy_from_slice(b"cubic");
    assert_eq!(extract_nul_string(&buf), "cubic");

    let empty = [0u8; 16];
    assert_eq!(extract_nul_string(&empty), "");

    let full: [u8; 4] = *b"rack";
    assert_eq!(extract_nul_string(&full), "rack");
}
