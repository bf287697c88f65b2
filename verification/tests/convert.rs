use bsd_xtcp::convert::{
    build_summary_from_records, build_summary_with_sys_stats, ip_addr_to_bytes,
    ip_version_to_proto, kernel_state_to_proto, raw_to_proto,
};
use bsd_xtcp::proto::{IpVersion, TcpSocketRecord, TcpState};
use bsd_xtcp::record::{IpAddr, RawSocketRecord};
use bsd_xtcp::sysctl::TcpSysStats;

#[test]
fn test_kernel_state_to_proto() {
    // CLOSED=0 -> proto 1
    assert_eq!(kernel_state_to_proto(0), 1);
    // ESTABLISHED=4 -> proto 5
    assert_eq!(kernel_state_to_proto(4), 5);
    // TIME_WAIT=10 -> proto 11
    assert_eq!(kernel_state_to_proto(10), 11);
    // Invalid -> UNKNOWN=0
    assert_eq!(kernel_state_to_proto(-1), 0);
    assert_eq!(kernel_state_to_proto(11), 0);
}

#[test]
fn test_ip_version_to_proto() {
    assert_eq!(ip_version_to_proto(4), IpVersion::IpVersion4.as_i32());
    assert_eq!(ip_version_to_proto(6), IpVersion::IpVersion6.as_i32());
    assert_eq!(ip_version_to_proto(0), IpVersion::Unknown.as_i32());
}

#[test]
fn test_ip_addr_to_bytes() {
    assert_eq!(ip_addr_to_bytes(&IpAddr::V4([10, 0, 0, 1])), vec![10, 0, 0, 1]);
    let v6 = [0u8; 16];
    assert_eq!(ip_addr_to_bytes(&IpAddr::V6(v6)), vec![0u8; 16]);
}

#[test]
fn test_raw_to_proto_basic() {
    let raw = RawSocketRecord {
        local_addr: Some(IpAddr::V4([127, 0, 0, 1])),
        remote_addr: Some(IpAddr::V4([10, 0, 0, 1])),
        local_port: Some(8080),
        remote_port: Some(443),
        ip_version: Some(4),
        state: Some(4), // ESTABLISHED
        pid: Some(1234),
        uid: Some(501),
        snd_cwnd: Some(65535),
        rtt_us: Some(15000),
        sources: vec![1],
        ..Default::default()
    };

    let proto = raw_to_proto(&raw);
    assert_eq!(proto.local_addr, vec![127, 0, 0, 1]);
    assert_eq!(proto.remote_addr, vec![10, 0, 0, 1]);
    assert_eq!(proto.local_port, 8080);
    assert_eq!(proto.remote_port, 443);
    assert_eq!(proto.state, TcpState::Established.as_i32());
    assert_eq!(proto.pid, Some(1234));
    assert_eq!(proto.snd_cwnd, Some(65535));
    assert_eq!(proto.rtt_us, Some(15000));
}

#[test]
fn test_raw_to_proto_freebsd_fields() {
    let raw = RawSocketRecord {
        local_addr: Some(IpAddr::V4([127, 0, 0, 1])),
        remote_addr: Some(IpAddr::V4([10, 0, 0, 1])),
        local_port: Some(80),
        remote_port: Some(12345),
        ip_version: Some(4),
        state: Some(4),
        cc_algo: Some("cubic".to_string()),
        tcp_stack: Some("freebsd".to_string()),
        rtt_min_us: Some(1000),
        snd_rexmitpack: Some(5),
        rcv_ooopack: Some(2),
        snd_zerowin: Some(1),
        rcv_numsacks: Some(3),
        ecn_flags: Some(0x03),
        delivered_ce: Some(10),
        received_ce: Some(20),
        dsack_bytes: Some(100),
        dsack_pack: Some(2),
        total_tlp: Some(4),
        total_tlp_bytes: Some(5000),
        timer_rexmt_ms: Some(200),
        timer_persist_ms: Some(0),
        timer_keep_ms: Some(7200000),
        timer_2msl_ms: Some(0),
        timer_delack_ms: Some(40),
        idle_time_ms: Some(5000),
        options: Some(0x07),
        fd: Some(3),
        sources: vec![5, 6], // FREEBSD_KLD, KERN_FILE
        ..Default::default()
    };

    let proto = raw_to_proto(&raw);
    assert_eq!(proto.cc_algo, Some("cubic".to_string()));
    assert_eq!(proto.tcp_stack, Some("freebsd".to_string()));
    assert_eq!(proto.rtt_min_us, Some(1000));
    assert_eq!(proto.rexmit_packets, Some(5));
    assert_eq!(proto.ooo_packets, Some(2));
    assert_eq!(proto.zerowin_probes, Some(1));
    assert_eq!(proto.sack_blocks, Some(3));
    assert_eq!(proto.ecn_flags, Some(0x03));
    assert_eq!(proto.ecn_ce_delivered, Some(10));
    assert_eq!(proto.ecn_ce_received, Some(20));
    assert_eq!(proto.dsack_bytes, Some(100));
    assert_eq!(proto.dsack_packets, Some(2));
    assert_eq!(proto.tlp_probes_sent, Some(4));
    assert_eq!(proto.tlp_bytes_sent, Some(5000));
    assert_eq!(proto.timer_rexmt_ms, Some(200));
    assert_eq!(proto.timer_persist_ms, Some(0));
    assert_eq!(proto.timer_keep_ms, Some(7200000));
    assert_eq!(proto.timer_delack_ms, Some(40));
    assert_eq!(proto.idle_time_ms, Some(5000));
    assert_eq!(proto.negotiated_options, Some(0x07));
    assert_eq!(proto.fd, Some(3));
    assert_eq!(proto.sources, vec![5, 6]);
}

#[test]
fn test_build_summary() {
    let records = vec![
        TcpSocketRecord { state: TcpState::Established.as_i32(), ..Default::default() },
        TcpSocketRecord { state: TcpState::Established.as_i32(), ..Default::default() },
        TcpSocketRecord { state: TcpState::TimeWait.as_i32(), ..Default::default() },
    ];

    let summary = build_summary_from_records(&records, 1000);
    assert_eq!(summary.total_sockets, 3);
    assert_eq!(summary.interval_ms, 1000);

    let established_count = summary
        .state_counts
        .iter()
        .find(|b| b.state == TcpState::Established.as_i32())
        .map(|b| b.count);
    assert_eq!(established_count, Some(2));

    let tw_count = summary
        .state_counts
        .iter()
        .find(|b| b.state == TcpState::TimeWait.as_i32())
        .map(|b| b.count);
    assert_eq!(tw_count, Some(1));
}

#[test]
fn test_build_summary_with_sys_stats() {
    let records = vec![TcpSocketRecord { state: TcpState::Established.as_i32(), ..Default::default() }];

    let sys_stats = TcpSysStats {
        connattempt: 100,
        accepts: 50,
        connects: 80,
        drops: 2,
        sndtotal: 1000,
        sndbyte: 500000,
        sndrexmitpack: 10,
        sndrexmitbyte: 5000,
        rcvtotal: 900,
        rcvbyte: 400000,
        rcvduppack: 5,
        rcvbadsum: 0,
    };

    let summary = build_summary_with_sys_stats(&records, 1000, &sys_stats);
    assert_eq!(summary.delta_conn_attempts, Some(100));
    assert_eq!(summary.delta_snd_rexmit_packets, Some(10));
    assert!(summary.retransmit_rate.is_some());
    let ratio = summary.retransmit_rate.unwrap();
    let rate = ratio.numerator as f64 / ratio.denominator as f64;
    assert!((rate - 0.01).abs() < 0.001); // 10/1000 = 0.01
}
