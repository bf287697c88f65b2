//! Prometheus text exposition of a snapshot.

use vstd::prelude::*;
use crate::exporter::collector::{pair_views, Snapshot};
use crate::sysctl::TcpSysStats;
use crate::text::{decimal, push_decimal};

verus! {

/// A sample line: `name value`.
pub open spec fn metric_line(name: Seq<char>, val: u64) -> Seq<char> {
    name + " "@ + decimal(val as nat) + "\n"@
}

/// A counter with its help and type lines, followed by a blank line.
pub open spec fn counter_block(name: Seq<char>, help: Seq<char>, val: u64) -> Seq<char> {
    "# HELP "@ + name + " "@ + help + "\n"@ + "# TYPE "@ + name + " counter\n"@ + metric_line(
        name,
        val,
    ) + "\n"@
}

/// One gauge line per state: `tcpstats_sockets_by_state{state="NAME"} count`.
pub open spec fn state_lines(counts: Seq<(Seq<char>, nat)>) -> Seq<char>
    decreases counts.len(),
{
    if counts.len() == 0 {
        Seq::empty()
    } else {
        state_lines(counts.drop_last()) + "tcpstats_sockets_by_state{state=\""@ + counts.last().0
            + "\"} "@ + decimal(counts.last().1) + "\n"@
    }
}

/// The system-wide counter blocks.
pub open spec fn sys_blocks(sys: TcpSysStats) -> Seq<char> {
    counter_block(
        "tcpstats_sys_connection_attempts_total"@,
        "Connection attempts (tcps_connattempt)"@,
        sys.connattempt,
    ) + counter_block(
        "tcpstats_sys_accepts_total"@,
        "Connections accepted (tcps_accepts)"@,
        sys.accepts,
    ) + counter_block(
        "tcpstats_sys_connects_total"@,
        "Connections established (tcps_connects)"@,
        sys.connects,
    ) + counter_block("tcpstats_sys_drops_total"@, "Connections dropped (tcps_drops)"@, sys.drops)
        + counter_block(
        "tcpstats_sys_sent_packets_total"@,
        "Total packets sent (tcps_sndtotal)"@,
        sys.sndtotal,
    ) + counter_block(
        "tcpstats_sys_sent_bytes_total"@,
        "Total bytes sent (tcps_sndbyte)"@,
        sys.sndbyte,
    ) + counter_block(
        "tcpstats_sys_retransmit_packets_total"@,
        "Retransmitted packets (tcps_sndrexmitpack)"@,
        sys.sndrexmitpack,
    ) + counter_block(
        "tcpstats_sys_retransmit_bytes_total"@,
        "Retransmitted bytes (tcps_sndrexmitbyte)"@,
        sys.sndrexmitbyte,
    ) + counter_block(
        "tcpstats_sys_received_packets_total"@,
        "Total packets received (tcps_rcvtotal)"@,
        sys.rcvtotal,
    ) + counter_block(
        "tcpstats_sys_received_bytes_total"@,
        "Total bytes received (tcps_rcvbyte)"@,
        sys.rcvbyte,
    ) + counter_block(
        "tcpstats_sys_duplicate_packets_total"@,
        "Duplicate packets received (tcps_rcvduppack)"@,
        sys.rcvduppack,
    ) + counter_block(
        "tcpstats_sys_bad_checksum_total"@,
        "Bad checksum packets (tcps_rcvbadsum)"@,
        sys.rcvbadsum,
    )
}

/// The exposition of a snapshot: the exporter's liveness, request count and
/// collection latency (`latency_text`, the seconds with six decimals), the
/// socket total and per-state gauges, then the system-wide counters.
pub open spec fn render_spec(
    total_sockets: u64,
    state_counts: Seq<(Seq<char>, nat)>,
    sys: TcpSysStats,
    http_requests: u64,
    latency_text: Seq<char>,
) -> Seq<char> {
    "# HELP tcpstats_exporter_up Exporter liveness indicator\n"@
        + "# TYPE tcpstats_exporter_up gauge\n"@ + "tcpstats_exporter_up 1\n"@ + "\n"@
        + "# HELP tcpstats_exporter_http_requests_total Total HTTP requests handled\n"@
        + "# TYPE tcpstats_exporter_http_requests_total counter\n"@ + metric_line(
        "tcpstats_exporter_http_requests_total"@,
        http_requests,
    ) + "\n"@
        + "# HELP tcpstats_exporter_collection_latency_seconds Most recent collection latency\n"@
        + "# TYPE tcpstats_exporter_collection_latency_seconds gauge\n"@
        + "tcpstats_exporter_collection_latency_seconds "@ + latency_text + "\n"@ + "\n"@
        + "# HELP tcpstats_sockets_total Total TCP sockets observed\n"@
        + "# TYPE tcpstats_sockets_total gauge\n"@ + metric_line(
        "tcpstats_sockets_total"@,
        total_sockets,
    ) + "\n"@ + "# HELP tcpstats_sockets_by_state Count of TCP sockets per state\n"@
        + "# TYPE tcpstats_sockets_by_state gauge\n"@ + state_lines(state_counts) + "\n"@
        + sys_blocks(sys)
}

fn push_metric_u64(out: &mut String, name: &str, val: u64)
    ensures
        final(out)@ == old(out)@ + metric_line(name@, val),
{
    out.append(name);
    out.append(" ");
    push_decimal(out, val);
    out.append("\n");
}

fn push_counter_block(out: &mut String, name: &str, help: &str, val: u64)
    ensures
        final(out)@ == old(out)@ + counter_block(name@, help@, val),
{
    out.append("# HELP ");
    out.append(name);
    out.append(" ");
    out.append(help);
    out.append("\n");
    out.append("# TYPE ");
    out.append(name);
    out.append(" counter\n");
    push_metric_u64(out, name, val);
    out.append("\n");
}

fn push_sys_blocks(out: &mut String, sys: &TcpSysStats)
    ensures
        final(out)@ == old(out)@ + sys_blocks(*sys),
{
    let ghost start = out@;
    push_counter_block(
        out,
        "tcpstats_sys_connection_attempts_total",
        "Connection attempts (tcps_connattempt)",
        sys.connattempt,
    );
    push_counter_block(
        out,
        "tcpstats_sys_accepts_total",
        "Connections accepted (tcps_accepts)",
        sys.accepts,
    );
    push_counter_block(
        out,
        "tcpstats_sys_connects_total",
        "Connections established (tcps_connects)",
        sys.connects,
    );
    push_counter_block(out, "tcpstats_sys_drops_total", "Connections dropped (tcps_drops)", sys.drops);
    push_counter_block(
        out,
        "tcpstats_sys_sent_packets_total",
        "Total packets sent (tcps_sndtotal)",
        sys.sndtotal,
    );
    push_counter_block(
        out,
        "tcpstats_sys_sent_bytes_total",
        "Total bytes sent (tcps_sndbyte)",
        sys.sndbyte,
    );
    push_counter_block(
        out,
        "tcpstats_sys_retransmit_packets_total",
        "Retransmitted packets (tcps_sndrexmitpack)",
        sys.sndrexmitpack,
    );
    push_counter_block(
        out,
        "tcpstats_sys_retransmit_bytes_total",
        "Retransmitted bytes (tcps_sndrexmitbyte)",
        sys.sndrexmitbyte,
    );
    push_counter_block(
        out,
        "tcpstats_sys_received_packets_total",
        "Total packets received (tcps_rcvtotal)",
        sys.rcvtotal,
    );
    push_counter_block(
        out,
        "tcpstats_sys_received_bytes_total",
        "Total bytes received (tcps_rcvbyte)",
        sys.rcvbyte,
    );
    push_counter_block(
        out,
        "tcpstats_sys_duplicate_packets_total",
        "Duplicate packets received (tcps_rcvduppack)",
        sys.rcvduppack,
    );
    push_counter_block(
        out,
        "tcpstats_sys_bad_checksum_total",
        "Bad checksum packets (tcps_rcvbadsum)",
        sys.rcvbadsum,
    );
    assert(out@ =~= start + sys_blocks(*sys));
}

/// Render a snapshot and exporter self-metrics in the Prometheus text
/// exposition format. The collection latency comes formatted (seconds with
/// six decimals).
pub fn render(snapshot: &Snapshot, http_requests: u64, latency_text: &str) -> (out: String)
    ensures
        out@ == render_spec(
            snapshot.total_sockets,
            pair_views(snapshot.state_counts@),
            snapshot.sys_stats,
            http_requests,
            latency_text@,
        ),
{
    let mut out = String::new();

    // Exporter self-metrics
    out.append("# HELP tcpstats_exporter_up Exporter liveness indicator\n");
    out.append("# TYPE tcpstats_exporter_up gauge\n");
    out.append("tcpstats_exporter_up 1\n");
    out.append("\n");

    out.append("# HELP tcpstats_exporter_http_requests_total Total HTTP requests handled\n");
    out.append("# TYPE tcpstats_exporter_http_requests_total counter\n");
    push_metric_u64(&mut out, "tcpstats_exporter_http_requests_total", http_requests);
    out.append("\n");

    out.append(
        "# HELP tcpstats_exporter_collection_latency_seconds Most recent collection latency\n",
    );
    out.append("# TYPE tcpstats_exporter_collection_latency_seconds gauge\n");
    out.append("tcpstats_exporter_collection_latency_seconds ");
    out.append(latency_text);
    out.append("\n");
    out.append("\n");

    // Socket counts
    out.append("# HELP tcpstats_sockets_total Total TCP sockets observed\n");
    out.append("# TYPE tcpstats_sockets_total gauge\n");
    push_metric_u64(&mut out, "tcpstats_sockets_total", snapshot.total_sockets);
    out.append("\n");

    out.append("# HELP tcpstats_sockets_by_state Count of TCP sockets per state\n");
    out.append("# TYPE tcpstats_sockets_by_state gauge\n");
    let ghost before_states = out@;
    let counts = &snapshot.state_counts;
    let mut i: usize = 0;
    while i < counts.len()
        invariant
            i <= counts@.len(),
            out@ == before_states + state_lines(pair_views(counts@).take(i as int)),
        decreases counts@.len() - i,
    {
        let (state, count) = &counts[i];
        assert(pair_views(counts@).take(i + 1).drop_last() =~= pair_views(counts@).take(i as int));
        out.append("tcpstats_sockets_by_state{state=\"");
        out.append(state.as_str());
        out.append("\"} ");
        push_decimal(&mut out, *count);
        out.append("\n");
        i = i + 1;
    }
    assert(pair_views(counts@).take(counts@.len() as int) =~= pair_views(counts@));
    out.append("\n");

    // System-wide sysctl counters
    push_sys_blocks(&mut out, &snapshot.sys_stats);
    out
}

} // verus!
