use bsd_xtcp::exporter::collector::Snapshot;
use bsd_xtcp::exporter::metrics::render;
use bsd_xtcp::sysctl::TcpSysStats;

#[test]
fn test_render_contains_expected_metrics() {
    let snapshot = Snapshot {
        total_sockets: 42,
        state_counts: vec![("ESTABLISHED".to_string(), 30), ("TIME_WAIT".to_string(), 12)],
        sys_stats: TcpSysStats {
            connattempt: 100,
            accepts: 50,
            connects: 80,
            drops: 2,
            sndtotal: 1000,
            sndbyte: 500000,
            sndrexmitpack: 10,
            sndrexmitbyte: 5000,
            rcvtotal: 900,
            rcvbyte: 400000,
            rcvduppack: 5,
            rcvbadsum: 0,
        },
    };

    let output = render(&snapshot, 7, &format!("{:.6}", 0.001f64));

    assert!(output.contains("tcpstats_exporter_up 1"));
    assert!(output.contains("tcpstats_exporter_http_requests_total 7"));
    assert!(output.contains("tcpstats_exporter_collection_latency_seconds"));
    assert!(output.contains("tcpstats_sockets_total 42"));
    assert!(output.contains("tcpstats_sockets_by_state{state=\"ESTABLISHED\"} 30"));
    assert!(output.contains("tcpstats_sockets_by_state{state=\"TIME_WAIT\"} 12"));
    assert!(output.contains("tcpstats_sys_connection_attempts_total 100"));
    assert!(output.contains("tcpstats_sys_accepts_total 50"));
    assert!(output.contains("tcpstats_sys_connects_total 80"));
    assert!(output.contains("tcpstats_sys_drops_total 2"));
    assert!(output.contains("tcpstats_sys_sent_packets_total 1000"));
    assert!(output.contains("tcpstats_sys_sent_bytes_total 500000"));
    assert!(output.contains("tcpstats_sys_retransmit_packets_total 10"));
    assert!(output.contains("tcpstats_sys_retransmit_bytes_total 5000"));
    assert!(output.contains("tcpstats_sys_received_packets_total 900"));
    assert!(output.contains("tcpstats_sys_received_bytes_total 400000"));
    assert!(output.contains("tcpstats_sys_duplicate_packets_total 5"));
    assert!(output.contains("tcpstats_sys_bad_checksum_total 0"));
}

#[test]
fn test_render_has_help_and_type() {
    let snapshot = Snapshot { total_sockets: 0, state_counts: vec![], sys_stats: TcpSysStats::default() };

    let output = render(&snapshot, 0, &format!("{:.6}", 0.0f64));

    // Every metric should have HELP and TYPE
    assert!(output.contains("# HELP tcpstats_exporter_up"));
    assert!(output.contains("# TYPE tcpstats_exporter_up gauge"));
    assert!(output.contains("# HELP tcpstats_sockets_total"));
    assert!(output.contains("# TYPE tcpstats_sockets_total gauge"));
    assert!(output.contains("# HELP tcpstats_sys_connection_attempts_total"));
    assert!(output.contains("# TYPE tcpstats_sys_connection_attempts_total counter"));
}
