//! Conversion of parsed socket records to the export schema, and the
//! per-batch summary and metadata.

use vstd::prelude::*;
use crate::clock::unix_timestamp_ns;
use crate::proto::{
    BatchMessage, CollectionMetadata, Ratio, StateBucket, SystemSummary, TcpSocketRecord,
};
use crate::record::{opt_string_view, IpAddr, RawSocketRecord, RecordView};
use crate::proto::{data_source_code, platform_code, DataSource, Platform};
use crate::sysctl::{read_os_version, trim_trailing_nuls, SysctlError, TcpSysStats};
use crate::text::utf8_lossy;

verus! {

/// Exported state code of a kernel `TCPS_*` state: kernel + 1 for 0..=10,
/// else 0 (unknown).
pub open spec fn kernel_state_code(kernel_state: i32) -> i32 {
    if 0 <= kernel_state <= 10 {
        (kernel_state + 1) as i32
    } else {
        0
    }
}

/// Map macOS/FreeBSD kernel TCPS_* state (0-10) to the exported `TcpState`.
///
/// Kernel values: CLOSED=0, LISTEN=1, SYN_SENT=2, SYN_RECEIVED=3, ESTABLISHED=4,
///   CLOSE_WAIT=5, FIN_WAIT_1=6, CLOSING=7, LAST_ACK=8, FIN_WAIT_2=9, TIME_WAIT=10
/// Exported values: CLOSED=1, ..., TIME_WAIT=11; UNKNOWN=0.
pub fn kernel_state_to_proto(kernel_state: i32) -> (code: i32)
    ensures
        code == kernel_state_code(kernel_state),
{
    if 0 <= kernel_state && kernel_state <= 10 {
        kernel_state + 1
    } else {
        0
    }
}

/// Exported IP version code of an IP version number: 4 -> 1, 6 -> 2, else 0.
pub open spec fn ip_version_code_of(version: u8) -> i32 {
    if version == 4 {
        1
    } else if version == 6 {
        2
    } else {
        0
    }
}

/// Map the ip_version byte (4 or 6) to the exported `IpVersion` code.
pub fn ip_version_to_proto(version: u8) -> (code: i32)
    ensures
        code == ip_version_code_of(version),
{
    match version {
        4 => 1,
        6 => 2,
        _ => 0,
    }
}

/// The raw bytes of an address: 4 for IPv4, 16 for IPv6.
pub open spec fn ip_bytes(addr: IpAddr) -> Seq<u8> {
    match addr {
        IpAddr::V4(a) => a@,
        IpAddr::V6(a) => a@,
    }
}

fn slice_to_vec(s: &[u8]) -> (v: Vec<u8>)
    ensures
        v@ == s@,
{
    let mut v: Vec<u8> = Vec::new();
    let mut i: usize = 0;
    while i < s.len()
        invariant
            i <= s@.len(),
            v@ == s@.take(i as int),
        decreases s@.len() - i,
    {
        v.push(s[i]);
        i = i + 1;
        assert(v@ =~= s@.take(i as int));
    }
    assert(s@.take(s@.len() as int) =~= s@);
    v
}

/// Convert an address to its raw bytes for export.
pub fn ip_addr_to_bytes(addr: &IpAddr) -> (bytes: Vec<u8>)
    ensures
        bytes@ == ip_bytes(*addr),
{
    match addr {
        IpAddr::V4(a) => slice_to_vec(a.as_slice()),
        IpAddr::V6(a) => slice_to_vec(a.as_slice()),
    }
}

/// The exported bytes of an optional address (empty when absent).
pub open spec fn opt_ip_bytes(addr: Option<IpAddr>) -> Seq<u8> {
    match addr {
        Some(a) => ip_bytes(a),
        None => Seq::empty(),
    }
}

/// `p` is the export of the record `r`: addresses as raw bytes (empty when
/// absent), ports 0 and codes UNKNOWN when absent, the kernel state mapped
/// by `kernel_state_code`, every other field carried over (renamed where the
/// schema names it differently), option flags widened to `u32` and source
/// tags to `i32`.
pub open spec fn exported(p: TcpSocketRecord, r: RecordView) -> bool {
    &&& p.local_addr@ == opt_ip_bytes(r.local_addr)
    &&& p.remote_addr@ == opt_ip_bytes(r.remote_addr)
    &&& p.local_port == (match r.local_port { Some(v) => v as u32, None => 0u32 })
    &&& p.remote_port == (match r.remote_port { Some(v) => v as u32, None => 0u32 })
    &&& p.ip_version == (match r.ip_version { Some(v) => ip_version_code_of(v), None => 0i32 })
    &&& p.socket_id == r.socket_id
    &&& p.state == (match r.state { Some(s) => kernel_state_code(s), None => 0i32 })
    &&& p.tcp_flags == r.tcp_flags
    &&& p.snd_cwnd == r.snd_cwnd
    &&& p.snd_ssthresh == r.snd_ssthresh
    &&& p.snd_wnd == r.snd_wnd
    &&& p.rcv_wnd == r.rcv_wnd
    &&& p.maxseg == r.maxseg
    &&& opt_string_view(&p.cc_algo) == r.cc_algo
    &&& opt_string_view(&p.tcp_stack) == r.tcp_stack
    &&& p.rtt_us == r.rtt_us
    &&& p.rttvar_us == r.rttvar_us
    &&& p.rto_us == r.rto_us
    &&& p.rtt_min_us == r.rtt_min_us
    &&& p.snd_nxt == r.snd_nxt
    &&& p.snd_una == r.snd_una
    &&& p.snd_max == r.snd_max
    &&& p.rcv_nxt == r.rcv_nxt
    &&& p.rcv_adv == r.rcv_adv
    &&& p.snd_wscale == r.snd_wscale
    &&& p.rcv_wscale == r.rcv_wscale
    &&& p.rexmit_packets == r.snd_rexmitpack
    &&& p.ooo_packets == r.rcv_ooopack
    &&& p.zerowin_probes == r.snd_zerowin
    &&& p.dupacks == r.dupacks
    &&& p.sack_blocks == r.rcv_numsacks
    &&& p.dsack_bytes == r.dsack_bytes
    &&& p.dsack_packets == r.dsack_pack
    &&& p.rxt_shift == r.rxt_shift
    &&& p.timer_rexmt_ms == r.timer_rexmt_ms
    &&& p.timer_persist_ms == r.timer_persist_ms
    &&& p.timer_keep_ms == r.timer_keep_ms
    &&& p.timer_2msl_ms == r.timer_2msl_ms
    &&& p.timer_delack_ms == r.timer_delack_ms
    &&& p.idle_time_ms == r.idle_time_ms
    &&& p.snd_buf_used == r.snd_buf_used
    &&& p.snd_buf_hiwat == r.snd_buf_hiwat
    &&& p.rcv_buf_used == r.rcv_buf_used
    &&& p.rcv_buf_hiwat == r.rcv_buf_hiwat
    &&& p.pid == r.pid
    &&& p.effective_pid == r.effective_pid
    &&& p.uid == r.uid
    &&& p.fd == r.fd
    &&& p.ecn_flags == r.ecn_flags
    &&& p.ecn_ce_delivered == r.delivered_ce
    &&& p.ecn_ce_received == r.received_ce
    &&& p.negotiated_options == (match r.options { Some(o) => Some(o as u32), None => None::<u32> })
    &&& p.tlp_probes_sent == r.total_tlp
    &&& p.tlp_bytes_sent == r.total_tlp_bytes
    &&& p.inp_gencnt == r.inp_gencnt
    &&& p.start_time_secs == r.start_time_secs
    &&& p.sources@ == r.sources.map_values(|s: u8| s as i32)
}

/// The export of a socket record carries every field over: each field the
/// schema names alike is equal to the record's (send and receive fields
/// stay apart), the renamed counters take the record's counter of the same
/// meaning, ports widen with 0 when absent, the kernel state `s` in 0..=10
/// becomes `s + 1` and anything else 0, IPv4 is 1 and IPv6 2, and addresses
/// become their raw bytes.
pub proof fn lemma_export_fields(p: TcpSocketRecord, raw: RawSocketRecord)
    requires
        exported(p, raw@),
    ensures
        p.socket_id == raw.socket_id,
        p.tcp_flags == raw.tcp_flags,
        p.snd_cwnd == raw.snd_cwnd,
        p.snd_ssthresh == raw.snd_ssthresh,
        p.snd_wnd == raw.snd_wnd,
        p.rcv_wnd == raw.rcv_wnd,
        p.maxseg == raw.maxseg,
        p.rtt_us == raw.rtt_us,
        p.rttvar_us == raw.rttvar_us,
        p.rto_us == raw.rto_us,
        p.rtt_min_us == raw.rtt_min_us,
        p.snd_nxt == raw.snd_nxt,
        p.snd_una == raw.snd_una,
        p.snd_max == raw.snd_max,
        p.rcv_nxt == raw.rcv_nxt,
        p.rcv_adv == raw.rcv_adv,
        p.snd_wscale == raw.snd_wscale,
        p.rcv_wscale == raw.rcv_wscale,
        p.dupacks == raw.dupacks,
        p.dsack_bytes == raw.dsack_bytes,
        p.rxt_shift == raw.rxt_shift,
        p.timer_rexmt_ms == raw.timer_rexmt_ms,
        p.timer_persist_ms == raw.timer_persist_ms,
        p.timer_keep_ms == raw.timer_keep_ms,
        p.timer_2msl_ms == raw.timer_2msl_ms,
        p.timer_delack_ms == raw.timer_delack_ms,
        p.idle_time_ms == raw.idle_time_ms,
        p.snd_buf_used == raw.snd_buf_used,
        p.snd_buf_hiwat == raw.snd_buf_hiwat,
        p.rcv_buf_used == raw.rcv_buf_used,
        p.rcv_buf_hiwat == raw.rcv_buf_hiwat,
        p.pid == raw.pid,
        p.effective_pid == raw.effective_pid,
        p.uid == raw.uid,
        p.fd == raw.fd,
        p.ecn_flags == raw.ecn_flags,
        p.inp_gencnt == raw.inp_gencnt,
        p.start_time_secs == raw.start_time_secs,
        p.rexmit_packets == raw.snd_rexmitpack,
        p.ooo_packets == raw.rcv_ooopack,
        p.zerowin_probes == raw.snd_zerowin,
        p.sack_blocks == raw.rcv_numsacks,
        p.dsack_packets == raw.dsack_pack,
        p.ecn_ce_delivered == raw.delivered_ce,
        p.ecn_ce_received == raw.received_ce,
        p.tlp_probes_sent == raw.total_tlp,
        p.tlp_bytes_sent == raw.total_tlp_bytes,
        p.local_port == (match raw.local_port { Some(v) => v as u32, None => 0u32 }),
        p.remote_port == (match raw.remote_port { Some(v) => v as u32, None => 0u32 }),
        p.negotiated_options == (match raw.options { Some(o) => Some(o as u32), None => None::<u32> }),
        p.state == (match raw.state { Some(st) => if 0 <= st <= 10 { (st + 1) as i32 } else { 0i32 }, None => 0i32 }),
        p.ip_version == (match raw.ip_version { Some(4u8) => 1i32, Some(6u8) => 2i32, _ => 0i32 }),
        p.local_addr@ == (match raw.local_addr { Some(IpAddr::V4(a)) => a@, Some(IpAddr::V6(a)) => a@, None => Seq::<u8>::empty() }),
        p.remote_addr@ == (match raw.remote_addr { Some(IpAddr::V4(a)) => a@, Some(IpAddr::V6(a)) => a@, None => Seq::<u8>::empty() }),
        p.sources@.len() == raw.sources@.len(),
        forall|k: int| 0 <= k < raw.sources@.len() ==> p.sources@[k] == raw.sources@[k] as i32,
{
}

fn clone_opt_string(s: &Option<String>) -> (r: Option<String>)
    ensures
        opt_string_view(&r) == opt_string_view(s),
{
    match s {
        Some(s) => Some(s.clone()),
        None => None,
    }
}

fn opt_addr_bytes(addr: &Option<IpAddr>) -> (bytes: Vec<u8>)
    ensures
        bytes@ == opt_ip_bytes(*addr),
{
    match addr {
        Some(a) => ip_addr_to_bytes(a),
        None => Vec::new(),
    }
}

fn source_codes(sources: &Vec<u8>) -> (codes: Vec<i32>)
    ensures
        codes@ == sources@.map_values(|s: u8| s as i32),
{
    let mut codes: Vec<i32> = Vec::new();
    let mut i: usize = 0;
    while i < sources.len()
        invariant
            i <= sources@.len(),
            codes@ == sources@.take(i as int).map_values(|s: u8| s as i32),
        decreases sources@.len() - i,
    {
        codes.push(sources[i] as i32);
        i = i + 1;
        assert(codes@ =~= sources@.take(i as int).map_values(|s: u8| s as i32));
    }
    assert(sources@.take(sources@.len() as int) =~= sources@);
    codes
}

/// Convert a `RawSocketRecord` to an exported `TcpSocketRecord`.
pub fn raw_to_proto(raw: &RawSocketRecord) -> (p: TcpSocketRecord)
    ensures
        exported(p, raw@),
{
    TcpSocketRecord {
        local_addr: opt_addr_bytes(&raw.local_addr),
        remote_addr: opt_addr_bytes(&raw.remote_addr),
        local_port: match raw.local_port {
            Some(v) => v as u32,
            None => 0,
        },
        remote_port: match raw.remote_port {
            Some(v) => v as u32,
            None => 0,
        },
        ip_version: match raw.ip_version {
            Some(v) => ip_version_to_proto(v),
            None => 0,
        },
        socket_id: raw.socket_id,
        state: match raw.state {
            Some(s) => kernel_state_to_proto(s),
            None => 0,
        },
        tcp_flags: raw.tcp_flags,
        snd_cwnd: raw.snd_cwnd,
        snd_ssthresh: raw.snd_ssthresh,
        snd_wnd: raw.snd_wnd,
        rcv_wnd: raw.rcv_wnd,
        maxseg: raw.maxseg,
        cc_algo: clone_opt_string(&raw.cc_algo),
        tcp_stack: clone_opt_string(&raw.tcp_stack),
        rtt_us: raw.rtt_us,
        rttvar_us: raw.rttvar_us,
        rto_us: raw.rto_us,
        rtt_min_us: raw.rtt_min_us,
        snd_nxt: raw.snd_nxt,
        snd_una: raw.snd_una,
        snd_max: raw.snd_max,
        rcv_nxt: raw.rcv_nxt,
        rcv_adv: raw.rcv_adv,
        snd_wscale: raw.snd_wscale,
        rcv_wscale: raw.rcv_wscale,
        rexmit_packets: raw.snd_rexmitpack,
        ooo_packets: raw.rcv_ooopack,
        zerowin_probes: raw.snd_zerowin,
        dupacks: raw.dupacks,
        sack_blocks: raw.rcv_numsacks,
        dsack_bytes: raw.dsack_bytes,
        dsack_packets: raw.dsack_pack,
        rxt_shift: raw.rxt_shift,
        timer_rexmt_ms: raw.timer_rexmt_ms,
        timer_persist_ms: raw.timer_persist_ms,
        timer_keep_ms: raw.timer_keep_ms,
        timer_2msl_ms: raw.timer_2msl_ms,
        timer_delack_ms: raw.timer_delack_ms,
        idle_time_ms: raw.idle_time_ms,
        snd_buf_used: raw.snd_buf_used,
        snd_buf_hiwat: raw.snd_buf_hiwat,
        rcv_buf_used: raw.rcv_buf_used,
        rcv_buf_hiwat: raw.rcv_buf_hiwat,
        pid: raw.pid,
        effective_pid: raw.effective_pid,
        uid: raw.uid,
        fd: raw.fd,
        ecn_flags: raw.ecn_flags,
        ecn_ce_delivered: raw.delivered_ce,
        ecn_ce_received: raw.received_ce,
        negotiated_options: match raw.options {
            Some(o) => Some(o as u32),
            None => None,
        },
        tlp_probes_sent: raw.total_tlp,
        tlp_bytes_sent: raw.total_tlp_bytes,
        inp_gencnt: raw.inp_gencnt,
        start_time_secs: raw.start_time_secs,
        sources: source_codes(&raw.sources),
    }
}

/// Number of records in `recs` whose exported state is `state`.
pub open spec fn state_count(recs: Seq<TcpSocketRecord>, state: i32) -> nat
    decreases recs.len(),
{
    if recs.len() == 0 {
        0
    } else {
        state_count(recs.drop_last(), state) + if recs.last().state == state {
            1nat
        } else {
            0nat
        }
    }
}

/// `buckets` counts the states of `recs`: ordered by strictly increasing
/// state, one bucket per state that occurs, each holding the number of
/// records in that state.
pub open spec fn counts_states(buckets: Seq<StateBucket>, recs: Seq<TcpSocketRecord>) -> bool {
    &&& forall|i: int, j: int|
        0 <= i < j < buckets.len() ==> #[trigger] buckets[i].state < #[trigger] buckets[j].state
    &&& forall|i: int|
        0 <= i < buckets.len() ==> (#[trigger] buckets[i]).count == state_count(recs, buckets[i].state)
            && buckets[i].count > 0
    &&& forall|k: int|
        0 <= k < recs.len() ==> exists|i: int|
            0 <= i < buckets.len() && #[trigger] buckets[i].state == (#[trigger] recs[k]).state
}

proof fn lemma_state_count_bound(recs: Seq<TcpSocketRecord>, state: i32)
    ensures
        state_count(recs, state) <= recs.len(),
    decreases recs.len(),
{
    if recs.len() > 0 {
        lemma_state_count_bound(recs.drop_last(), state);
    }
}

/// A state no record has is counted 0 times.
proof fn lemma_state_count_absent(recs: Seq<TcpSocketRecord>, state: i32)
    requires
        forall|k: int| 0 <= k < recs.len() ==> (#[trigger] recs[k]).state != state,
    ensures
        state_count(recs, state) == 0,
    decreases recs.len(),
{
    if recs.len() > 0 {
        let d = recs.drop_last();
        assert forall|k: int| 0 <= k < d.len() implies (#[trigger] d[k]).state != state by {
            assert(d[k] == recs[k]);
        }
        lemma_state_count_absent(d, state);
        assert(recs.last() == recs[recs.len() - 1]);
    }
}

/// Adds one record in state `rec.state` to the counts of `recs`.
fn count_record(
    buckets: &mut Vec<StateBucket>,
    Ghost(recs): Ghost<Seq<TcpSocketRecord>>,
    rec: &TcpSocketRecord,
)
    requires
        counts_states(old(buckets)@, recs),
        recs.len() < u32::MAX,
    ensures
        counts_states(final(buckets)@, recs.push(*rec)),
{
    let state = rec.state;
    let ghost new_recs = recs.push(*rec);
    assert(new_recs.drop_last() =~= recs);
    assert(new_recs.last() == *rec);
    // The first bucket whose state is at least `state`.
    let mut p: usize = 0;
    while p < buckets.len() && buckets[p].state < state
        invariant
            p <= buckets@.len(),
            forall|i: int| 0 <= i < p ==> (#[trigger] buckets@[i]).state < state,
        decreases buckets@.len() - p,
    {
        p = p + 1;
    }
    proof {
        lemma_state_count_bound(recs, state);
        // Counts of the other states do not change.
        assert forall|x: i32| x != state implies state_count(new_recs, x) == state_count(recs, x) by {}
        assert(state_count(new_recs, state) == state_count(recs, state) + 1);
    }
    if p < buckets.len() && buckets[p].state == state {
        let old_count = buckets[p].count;
        let ghost old_b = buckets@;
        buckets.set(p, StateBucket { state, count: old_count + 1 });
        proof {
            assert forall|k: int| 0 <= k < new_recs.len() implies exists|i: int|
                0 <= i < buckets@.len() && #[trigger] buckets@[i].state == (#[trigger] new_recs[k]).state by {
                if k < recs.len() {
                    assert(new_recs[k] == recs[k]);
                    let i = choose|i: int| 0 <= i < old_b.len() && #[trigger] old_b[i].state == (#[trigger] recs[k]).state;
                    assert(buckets@[i].state == old_b[i].state);
                } else {
                    assert(buckets@[p as int].state == new_recs[k].state);
                }
            }
        }
    } else {
        let ghost old_b = buckets@;
        proof {
            // No bucket holds `state`, so no record has it.
            assert forall|i: int| 0 <= i < old_b.len() implies (#[trigger] old_b[i]).state != state by {
                if i >= p {
                    if i > p {
                        assert(old_b[p as int].state < old_b[i].state);
                    }
                }
            }
            assert forall|k: int| 0 <= k < recs.len() implies (#[trigger] recs[k]).state != state by {
                let i = choose|i: int| 0 <= i < old_b.len() && #[trigger] old_b[i].state == (#[trigger] recs[k]).state;
            }
            lemma_state_count_absent(recs, state);
        }
        buckets.insert(p, StateBucket { state, count: 1 });
        proof {
            assert forall|i: int, j: int|
                0 <= i < j < buckets@.len() implies #[trigger] buckets@[i].state < #[trigger] buckets@[j].state by {
                if j < p {
                    assert(buckets@[i] == old_b[i] && buckets@[j] == old_b[j]);
                } else if j == p {
                    assert(buckets@[i] == old_b[i]);
                } else if i < p {
                    assert(buckets@[i] == old_b[i] && buckets@[j] == old_b[j - 1]);
                    if j - 1 > p {
                        assert(old_b[p as int].state < old_b[j - 1].state);
                    }
                } else if i == p {
                    assert(buckets@[j] == old_b[j - 1]);
                    if j - 1 > p {
                        assert(old_b[p as int].state < old_b[j - 1].state);
                    }
                } else {
                    assert(buckets@[i] == old_b[i - 1] && buckets@[j] == old_b[j - 1]);
                }
            }
            assert forall|i: int| 0 <= i < buckets@.len() implies (#[trigger] buckets@[i]).count
                == state_count(new_recs, buckets@[i].state) && buckets@[i].count > 0 by {
                if i < p {
                    assert(buckets@[i] == old_b[i]);
                } else if i > p {
                    assert(buckets@[i] == old_b[i - 1]);
                }
            }
            assert forall|k: int| 0 <= k < new_recs.len() implies exists|i: int|
                0 <= i < buckets@.len() && #[trigger] buckets@[i].state == (#[trigger] new_recs[k]).state by {
                if k < recs.len() {
                    assert(new_recs[k] == recs[k]);
                    let i = choose|i: int| 0 <= i < old_b.len() && #[trigger] old_b[i].state == (#[trigger] recs[k]).state;
                    if i < p {
                        assert(buckets@[i] == old_b[i]);
                    } else {
                        assert(buckets@[i + 1] == old_b[i]);
                    }
                } else {
                    assert(buckets@[p as int].state == new_recs[k].state);
                }
            }
        }
    }
}

/// The state counts of `records`, ordered by state.
pub fn count_states(records: &[TcpSocketRecord]) -> (buckets: Vec<StateBucket>)
    requires
        records@.len() <= u32::MAX,
    ensures
        counts_states(buckets@, records@),
{
    let mut buckets: Vec<StateBucket> = Vec::new();
    let mut i: usize = 0;
    while i < records.len()
        invariant
            i <= records@.len(),
            records@.len() <= u32::MAX,
            counts_states(buckets@, records@.take(i as int)),
        decreases records@.len() - i,
    {
        count_record(&mut buckets, Ghost(records@.take(i as int)), &records[i]);
        assert(records@.take(i as int).push(records@[i as int]) =~= records@.take(i + 1));
        i = i + 1;
    }
    assert(records@.take(records@.len() as int) =~= records@);
    buckets
}

/// The summary of `records` taken at `timestamp_ns`: the socket total, the
/// state counts, and no system-wide deltas or rates.
pub open spec fn plain_summary(
    s: SystemSummary,
    records: Seq<TcpSocketRecord>,
    interval_ms: u32,
    timestamp_ns: u64,
) -> bool {
    &&& s.timestamp_ns == timestamp_ns
    &&& s.interval_ms == interval_ms
    &&& s.total_sockets == records.len()
    &&& counts_states(s.state_counts@, records)
    &&& s.delta_conn_attempts is None
    &&& s.delta_accepts is None
    &&& s.delta_connects is None
    &&& s.delta_drops is None
    &&& s.delta_snd_total_packets is None
    &&& s.delta_snd_bytes is None
    &&& s.delta_snd_rexmit_packets is None
    &&& s.delta_snd_rexmit_bytes is None
    &&& s.delta_rcv_total_packets is None
    &&& s.delta_rcv_bytes is None
    &&& s.delta_rcv_dup_packets is None
    &&& s.delta_rcv_badsum is None
    &&& s.retransmit_rate is None
    &&& s.duplicate_rate is None
}

/// Summarizes `records` as of `timestamp_ns`.
pub fn summarize_records(records: &[TcpSocketRecord], interval_ms: u32, timestamp_ns: u64) -> (s:
    SystemSummary)
    requires
        records@.len() <= u32::MAX,
    ensures
        plain_summary(s, records@, interval_ms, timestamp_ns),
{
    let state_counts = count_states(records);
    SystemSummary {
        timestamp_ns,
        interval_ms,
        total_sockets: records.len() as u32,
        state_counts,
        delta_conn_attempts: None,
        delta_accepts: None,
        delta_connects: None,
        delta_drops: None,
        delta_snd_total_packets: None,
        delta_snd_bytes: None,
        delta_snd_rexmit_packets: None,
        delta_snd_rexmit_bytes: None,
        delta_rcv_total_packets: None,
        delta_rcv_bytes: None,
        delta_rcv_dup_packets: None,
        delta_rcv_badsum: None,
        retransmit_rate: None,
        duplicate_rate: None,
    }
}

/// Build a `SystemSummary` from the converted records, stamped with the
/// current time.
pub fn build_summary_from_records(records: &[TcpSocketRecord], interval_ms: u32) -> (s:
    SystemSummary)
    requires
        records@.len() <= u32::MAX,
    ensures
        plain_summary(s, records@, interval_ms, s.timestamp_ns),
{
    summarize_records(records, interval_ms, unix_timestamp_ns())
}

/// `num / den` when `den` is positive.
pub open spec fn rate_of(num: u64, den: u64) -> Option<Ratio> {
    if den > 0 {
        Some(Ratio { numerator: num, denominator: den })
    } else {
        None
    }
}

/// `s` is `base` with the system-wide counters of `sys` as deltas, the
/// retransmit rate `sndrexmitpack / sndtotal` and the duplicate rate
/// `rcvduppack / rcvtotal` (each absent when its total is 0).
pub open spec fn with_sys_stats(s: SystemSummary, base: SystemSummary, sys: TcpSysStats) -> bool {
    &&& s.timestamp_ns == base.timestamp_ns
    &&& s.interval_ms == base.interval_ms
    &&& s.total_sockets == base.total_sockets
    &&& s.state_counts@ == base.state_counts@
    &&& s.delta_conn_attempts == Some(sys.connattempt)
    &&& s.delta_accepts == Some(sys.accepts)
    &&& s.delta_connects == Some(sys.connects)
    &&& s.delta_drops == Some(sys.drops)
    &&& s.delta_snd_total_packets == Some(sys.sndtotal)
    &&& s.delta_snd_bytes == Some(sys.sndbyte)
    &&& s.delta_snd_rexmit_packets == Some(sys.sndrexmitpack)
    &&& s.delta_snd_rexmit_bytes == Some(sys.sndrexmitbyte)
    &&& s.delta_rcv_total_packets == Some(sys.rcvtotal)
    &&& s.delta_rcv_bytes == Some(sys.rcvbyte)
    &&& s.delta_rcv_dup_packets == Some(sys.rcvduppack)
    &&& s.delta_rcv_badsum == Some(sys.rcvbadsum)
    &&& s.retransmit_rate == rate_of(sys.sndrexmitpack, sys.sndtotal)
    &&& s.duplicate_rate == rate_of(sys.rcvduppack, sys.rcvtotal)
}

/// A summary with system-wide counters carries each counter in the delta
/// of the same meaning (sent bytes as sent bytes, received as received, and
/// so on), the retransmit rate as retransmitted over sent packets and the
/// duplicate rate as duplicate over received packets, each only when its
/// denominator is not 0; the socket counts are the base summary's.
pub proof fn lemma_sys_stats_fields(s: SystemSummary, base: SystemSummary, sys: TcpSysStats)
    requires
        with_sys_stats(s, base, sys),
    ensures
        s.total_sockets == base.total_sockets,
        s.interval_ms == base.interval_ms,
        s.state_counts@ == base.state_counts@,
        s.delta_conn_attempts == Some(sys.connattempt),
        s.delta_accepts == Some(sys.accepts),
        s.delta_connects == Some(sys.connects),
        s.delta_drops == Some(sys.drops),
        s.delta_snd_total_packets == Some(sys.sndtotal),
        s.delta_snd_bytes == Some(sys.sndbyte),
        s.delta_snd_rexmit_packets == Some(sys.sndrexmitpack),
        s.delta_snd_rexmit_bytes == Some(sys.sndrexmitbyte),
        s.delta_rcv_total_packets == Some(sys.rcvtotal),
        s.delta_rcv_bytes == Some(sys.rcvbyte),
        s.delta_rcv_dup_packets == Some(sys.rcvduppack),
        s.delta_rcv_badsum == Some(sys.rcvbadsum),
        s.retransmit_rate == (if sys.sndtotal > 0 { Some(Ratio { numerator: sys.sndrexmitpack, denominator: sys.sndtotal }) } else { None::<Ratio> }),
        s.duplicate_rate == (if sys.rcvtotal > 0 { Some(Ratio { numerator: sys.rcvduppack, denominator: sys.rcvtotal }) } else { None::<Ratio> }),
{
}

/// Build a `SystemSummary` enriched with system-wide TCP stats deltas.
pub fn build_summary_with_sys_stats(
    records: &[TcpSocketRecord],
    interval_ms: u32,
    sys_stats: &TcpSysStats,
) -> (s: SystemSummary)
    requires
        records@.len() <= u32::MAX,
    ensures
        exists|base: SystemSummary|
            plain_summary(base, records@, interval_ms, s.timestamp_ns) && with_sys_stats(
                s,
                base,
                *sys_stats,
            ),
        s.total_sockets == records@.len(),
        s.interval_ms == interval_ms,
        s.delta_conn_attempts == Some(sys_stats.connattempt),
        s.delta_accepts == Some(sys_stats.accepts),
        s.delta_connects == Some(sys_stats.connects),
        s.delta_drops == Some(sys_stats.drops),
        s.delta_snd_total_packets == Some(sys_stats.sndtotal),
        s.delta_snd_bytes == Some(sys_stats.sndbyte),
        s.delta_snd_rexmit_packets == Some(sys_stats.sndrexmitpack),
        s.delta_snd_rexmit_bytes == Some(sys_stats.sndrexmitbyte),
        s.delta_rcv_total_packets == Some(sys_stats.rcvtotal),
        s.delta_rcv_bytes == Some(sys_stats.rcvbyte),
        s.delta_rcv_dup_packets == Some(sys_stats.rcvduppack),
        s.delta_rcv_badsum == Some(sys_stats.rcvbadsum),
        s.retransmit_rate == (if sys_stats.sndtotal > 0 { Some(Ratio { numerator: sys_stats.sndrexmitpack, denominator: sys_stats.sndtotal }) } else { None::<Ratio> }),
        s.duplicate_rate == (if sys_stats.rcvtotal > 0 { Some(Ratio { numerator: sys_stats.rcvduppack, denominator: sys_stats.rcvtotal }) } else { None::<Ratio> }),
{
    let mut summary = build_summary_from_records(records, interval_ms);
    let ghost base = summary;

    summary.delta_conn_attempts = Some(sys_stats.connattempt);
    summary.delta_accepts = Some(sys_stats.accepts);
    summary.delta_connects = Some(sys_stats.connects);
    summary.delta_drops = Some(sys_stats.drops);
    summary.delta_snd_total_packets = Some(sys_stats.sndtotal);
    summary.delta_snd_bytes = Some(sys_stats.sndbyte);
    summary.delta_snd_rexmit_packets = Some(sys_stats.sndrexmitpack);
    summary.delta_snd_rexmit_bytes = Some(sys_stats.sndrexmitbyte);
    summary.delta_rcv_total_packets = Some(sys_stats.rcvtotal);
    summary.delta_rcv_bytes = Some(sys_stats.rcvbyte);
    summary.delta_rcv_dup_packets = Some(sys_stats.rcvduppack);
    summary.delta_rcv_badsum = Some(sys_stats.rcvbadsum);

    // Rates, kept exact as ratios
    if sys_stats.sndtotal > 0 {
        summary.retransmit_rate = Some(
            Ratio { numerator: sys_stats.sndrexmitpack, denominator: sys_stats.sndtotal },
        );
    }
    if sys_stats.rcvtotal > 0 {
        summary.duplicate_rate = Some(
            Ratio { numerator: sys_stats.rcvduppack, denominator: sys_stats.rcvtotal },
        );
    }
    assert(with_sys_stats(summary, base, *sys_stats));
    summary
}

/// Facts about the host a batch is collected on, gathered outside the
/// library: its name, OS version, platform code and the data source codes
/// of its collector.
pub struct HostInfo {
    pub hostname: String,
    pub os_version: String,
    pub platform: i32,
    pub data_sources: Vec<i32>,
}

/// The tool name and version recorded in every batch.
pub const TOOL_VERSION: &'static str = "bsd-xtcp 0.1.0";

/// This machine's host name (`hostname::get`), converted lossily to UTF-8;
/// `None` when the call fails. The name is the machine's, so nothing more is
/// stated of it.
#[verifier::external_body]
fn system_hostname() -> Option<String> {
    match hostname::get() {
        Ok(name) => Some(name.to_string_lossy().into_owned()),
        Err(_) => None,
    }
}

/// The host name recorded in a batch: the name found, or `"unknown"`.
pub fn hostname_or_unknown(name: Option<String>) -> (h: String)
    ensures
        h@ == match name {
            Some(n) => n@,
            None => "unknown"@,
        },
{
    match name {
        Some(n) => n,
        None => String::from_str("unknown"),
    }
}

/// The data source codes of a platform's collector: the `pcblist_n` sysctl
/// on macOS, the tcpstats device and `kern.file` on FreeBSD, none elsewhere.
pub open spec fn platform_sources(p: Platform) -> Seq<i32> {
    match p {
        Platform::Macos => seq![data_source_code(DataSource::MacosPcblistN)],
        Platform::Freebsd => seq![
            data_source_code(DataSource::FreebsdKld),
            data_source_code(DataSource::KernFile),
        ],
        Platform::Unknown => Seq::empty(),
    }
}

/// Gathers the facts about this host that a batch records: its name
/// (`"unknown"` when it cannot be had), the OS version read with `read`
/// (`"unknown"` when the read fails), and the platform with its collector's
/// data sources.
pub fn local_host_info<F: Fn(&str) -> Result<Vec<u8>, SysctlError>>(
    platform: Platform,
    read: &F,
) -> (h: HostInfo)
    requires
        forall|n: &str| #[trigger] read.requires((n,)),
    ensures
        h.platform == platform_code(platform),
        h.data_sources@ == platform_sources(platform),
        (exists|buf: Vec<u8>|
            read.ensures(("kern.osproductversion",), Ok::<Vec<u8>, SysctlError>(buf))
                && h.os_version@ == trim_trailing_nuls(utf8_lossy(buf@))) || (exists|
            e: SysctlError,
        |
            read.ensures(("kern.osproductversion",), Err::<Vec<u8>, SysctlError>(e))
                && h.os_version@ == "unknown"@),
{
    let hostname = hostname_or_unknown(system_hostname());
    let os_version = match read_os_version(read) {
        Ok(v) => v,
        Err(_) => String::from_str("unknown"),
    };
    let mut data_sources: Vec<i32> = Vec::new();
    match platform {
        Platform::Macos => {
            data_sources.push(DataSource::MacosPcblistN.as_i32());
        },
        Platform::Freebsd => {
            data_sources.push(DataSource::FreebsdKld.as_i32());
            data_sources.push(DataSource::KernFile.as_i32());
        },
        Platform::Unknown => {},
    }
    proof {
        assert(data_sources@ =~= platform_sources(platform));
    }
    HostInfo { hostname, os_version, platform: platform.as_i32(), data_sources }
}

/// `m` describes a collection pass on `host` with the given parameters.
pub open spec fn metadata_of(
    m: CollectionMetadata,
    generation: u64,
    collection_duration_ns: u64,
    batch_sequence: u64,
    interval_ms: u32,
    host: HostInfo,
) -> bool {
    &&& m.hostname@ == host.hostname@
    &&& m.platform == host.platform
    &&& m.os_version@ == host.os_version@
    &&& m.interval_ms == interval_ms
    &&& m.schedule_name@ == Seq::<char>::empty()
    &&& m.data_sources@ == host.data_sources@
    &&& m.collection_duration_ns == collection_duration_ns
    &&& m.pcblist_generation == Some(generation)
    &&& m.batch_sequence == batch_sequence
    &&& m.tool_version@ == TOOL_VERSION@
}

fn clone_codes(v: &Vec<i32>) -> (c: Vec<i32>)
    ensures
        c@ == v@,
{
    let mut c: Vec<i32> = Vec::new();
    let mut i: usize = 0;
    while i < v.len()
        invariant
            i <= v@.len(),
            c@ == v@.take(i as int),
        decreases v@.len() - i,
    {
        c.push(v[i]);
        i = i + 1;
        assert(c@ =~= v@.take(i as int));
    }
    assert(v@.take(v@.len() as int) =~= v@);
    c
}

/// Build the `CollectionMetadata` of a batch, stamped with the current time.
pub fn build_metadata(
    generation: u64,
    collection_duration_ns: u64,
    _record_count: u32,
    batch_sequence: u64,
    interval_ms: u32,
    host: &HostInfo,
) -> (m: CollectionMetadata)
    ensures
        metadata_of(m, generation, collection_duration_ns, batch_sequence, interval_ms, *host),
{
    let timestamp_ns = unix_timestamp_ns();
    CollectionMetadata {
        timestamp_ns,
        hostname: host.hostname.clone(),
        platform: host.platform,
        os_version: host.os_version.clone(),
        interval_ms,
        schedule_name: String::new(),
        data_sources: clone_codes(&host.data_sources),
        collection_duration_ns,
        pcblist_generation: Some(generation),
        batch_sequence,
        tool_version: String::from_str(TOOL_VERSION),
    }
}

/// The exports of `raw_records`, in order.
pub fn convert_records(raw_records: &[RawSocketRecord]) -> (records: Vec<TcpSocketRecord>)
    ensures
        records@.len() == raw_records@.len(),
        forall|i: int| 0 <= i < raw_records@.len() ==> exported(#[trigger] records@[i], raw_records@[i]@),
{
    let mut records: Vec<TcpSocketRecord> = Vec::new();
    let mut i: usize = 0;
    while i < raw_records.len()
        invariant
            i <= raw_records@.len(),
            records@.len() == i,
            forall|j: int| 0 <= j < i ==> exported(#[trigger] records@[j], raw_records@[j]@),
        decreases raw_records@.len() - i,
    {
        records.push(raw_to_proto(&raw_records[i]));
        i = i + 1;
    }
    records
}

/// `b` is the batch of `raw_records`: their exports in order, metadata for
/// the pass, and a summary of the exported records.
pub open spec fn batch_of(
    b: BatchMessage,
    raw_records: Seq<RawSocketRecord>,
    generation: u64,
    collection_duration_ns: u64,
    batch_sequence: u64,
    interval_ms: u32,
    host: HostInfo,
) -> bool {
    &&& b.records@.len() == raw_records.len()
    &&& forall|i: int| 0 <= i < raw_records.len() ==> exported(#[trigger] b.records@[i], raw_records[i]@)
    &&& b.metadata matches Some(m) && metadata_of(
        m,
        generation,
        collection_duration_ns,
        batch_sequence,
        interval_ms,
        host,
    )
    &&& b.summary is Some
}

/// Assemble a full `BatchMessage` from collection results.
pub fn build_batch(
    raw_records: &[RawSocketRecord],
    generation: u64,
    collection_duration_ns: u64,
    batch_sequence: u64,
    interval_ms: u32,
    host: &HostInfo,
) -> (b: BatchMessage)
    requires
        raw_records@.len() <= u32::MAX,
    ensures
        batch_of(b, raw_records@, generation, collection_duration_ns, batch_sequence, interval_ms, *host),
        b.summary matches Some(s) && plain_summary(s, b.records@, interval_ms, s.timestamp_ns),
{
    let proto_records = convert_records(raw_records);
    let metadata = build_metadata(
        generation,
        collection_duration_ns,
        proto_records.len() as u32,
        batch_sequence,
        interval_ms,
        host,
    );
    let summary = build_summary_from_records(proto_records.as_slice(), interval_ms);
    BatchMessage { metadata: Some(metadata), records: proto_records, summary: Some(summary) }
}

/// Assemble a full `BatchMessage` with system-wide TCP stats.
pub fn build_batch_with_sys_stats(
    raw_records: &[RawSocketRecord],
    generation: u64,
    collection_duration_ns: u64,
    batch_sequence: u64,
    interval_ms: u32,
    sys_stats: &TcpSysStats,
    host: &HostInfo,
) -> (b: BatchMessage)
    requires
        raw_records@.len() <= u32::MAX,
    ensures
        batch_of(b, raw_records@, generation, collection_duration_ns, batch_sequence, interval_ms, *host),
        b.summary matches Some(s) && exists|base: SystemSummary|
            plain_summary(base, b.records@, interval_ms, s.timestamp_ns) && with_sys_stats(
                s,
                base,
                *sys_stats,
            ),
{
    let proto_records = convert_records(raw_records);
    let metadata = build_metadata(
        generation,
        collection_duration_ns,
        proto_records.len() as u32,
        batch_sequence,
        interval_ms,
        host,
    );
    let summary = build_summary_with_sys_stats(proto_records.as_slice(), interval_ms, sys_stats);
    BatchMessage { metadata: Some(metadata), records: proto_records, summary: Some(summary) }
}

/// The sum of the bucket counts.
pub open spec fn bucket_total(b: Seq<StateBucket>) -> nat
    decreases b.len(),
{
    if b.len() == 0 {
        0
    } else {
        bucket_total(b.drop_last()) + b.last().count as nat
    }
}

/// The sum over `states` of the number of records in each.
spec fn sum_state_counts(recs: Seq<TcpSocketRecord>, states: Seq<i32>) -> nat
    decreases states.len(),
{
    if states.len() == 0 {
        0
    } else {
        sum_state_counts(recs, states.drop_last()) + state_count(recs, states.last())
    }
}

/// How often `x` occurs in `states`.
spec fn occurrences(states: Seq<i32>, x: i32) -> nat
    decreases states.len(),
{
    if states.len() == 0 {
        0
    } else {
        occurrences(states.drop_last(), x) + if states.last() == x {
            1nat
        } else {
            0nat
        }
    }
}

proof fn lemma_sum_split(recs: Seq<TcpSocketRecord>, states: Seq<i32>)
    requires
        recs.len() > 0,
    ensures
        sum_state_counts(recs, states) == sum_state_counts(recs.drop_last(), states) + occurrences(
            states,
            recs.last().state,
        ),
    decreases states.len(),
{
    if states.len() > 0 {
        lemma_sum_split(recs, states.drop_last());
    }
}

proof fn lemma_occurs_once(states: Seq<i32>, x: i32)
    requires
        forall|i: int, j: int| 0 <= i < j < states.len() ==> states[i] != states[j],
        exists|i: int| 0 <= i < states.len() && states[i] == x,
    ensures
        occurrences(states, x) == 1,
    decreases states.len(),
{
    let d = states.drop_last();
    if states.last() == x {
        assert forall|i: int| 0 <= i < d.len() implies d[i] != x by {
            assert(states[i] != states[states.len() - 1]);
        }
        lemma_occurs_never(d, x);
    } else {
        let i = choose|i: int| 0 <= i < states.len() && states[i] == x;
        assert(i < states.len() - 1);
        assert(d[i] == x);
        lemma_occurs_once(d, x);
    }
}

proof fn lemma_occurs_never(states: Seq<i32>, x: i32)
    requires
        forall|i: int| 0 <= i < states.len() ==> states[i] != x,
    ensures
        occurrences(states, x) == 0,
    decreases states.len(),
{
    if states.len() > 0 {
        let d = states.drop_last();
        assert forall|i: int| 0 <= i < d.len() implies d[i] != x by {
            assert(d[i] == states[i]);
        }
        lemma_occurs_never(d, x);
    }
}

proof fn lemma_sum_covers(recs: Seq<TcpSocketRecord>, states: Seq<i32>)
    requires
        forall|i: int, j: int| 0 <= i < j < states.len() ==> states[i] != states[j],
        forall|k: int| 0 <= k < recs.len() ==> states.contains(#[trigger] recs[k].state),
    ensures
        sum_state_counts(recs, states) == recs.len(),
    decreases recs.len(),
{
    if recs.len() == 0 {
        lemma_sum_zero(recs, states);
    } else {
        let d = recs.drop_last();
        assert forall|k: int| 0 <= k < d.len() implies states.contains(#[trigger] d[k].state) by {
            assert(d[k] == recs[k]);
        }
        lemma_sum_covers(d, states);
        lemma_sum_split(recs, states);
        assert(recs.last() == recs[recs.len() - 1]);
        assert(states.contains(recs[recs.len() - 1].state));
        lemma_occurs_once(states, recs.last().state);
    }
}

proof fn lemma_sum_zero(recs: Seq<TcpSocketRecord>, states: Seq<i32>)
    requires
        recs.len() == 0,
    ensures
        sum_state_counts(recs, states) == 0,
    decreases states.len(),
{
    if states.len() > 0 {
        lemma_sum_zero(recs, states.drop_last());
    }
}

proof fn lemma_bucket_total_is_sum(b: Seq<StateBucket>, recs: Seq<TcpSocketRecord>)
    requires
        forall|i: int| 0 <= i < b.len() ==> (#[trigger] b[i]).count == state_count(recs, b[i].state),
    ensures
        bucket_total(b) == sum_state_counts(recs, b.map_values(|x: StateBucket| x.state)),
    decreases b.len(),
{
    if b.len() > 0 {
        let d = b.drop_last();
        assert forall|i: int| 0 <= i < d.len() implies (#[trigger] d[i]).count == state_count(recs, d[i].state) by {
            assert(d[i] == b[i]);
        }
        lemma_bucket_total_is_sum(d, recs);
        assert(b.map_values(|x: StateBucket| x.state).drop_last() =~= d.map_values(
            |x: StateBucket| x.state,
        ));
        assert(b.last() == b[b.len() - 1]);
    }
}

/// Every socket is counted in exactly one state bucket: the bucket counts
/// of a summary add up to its number of sockets.
pub proof fn lemma_state_counts_add_up(buckets: Seq<StateBucket>, recs: Seq<TcpSocketRecord>)
    requires
        counts_states(buckets, recs),
    ensures
        bucket_total(buckets) == recs.len(),
{
    let states = buckets.map_values(|x: StateBucket| x.state);
    assert forall|i: int, j: int| 0 <= i < j < states.len() implies states[i] != states[j] by {
        assert(buckets[i].state < buckets[j].state);
    }
    assert forall|k: int| 0 <= k < recs.len() implies states.contains(#[trigger] recs[k].state) by {
        let i = choose|i: int| 0 <= i < buckets.len() && #[trigger] buckets[i].state == (#[trigger] recs[k]).state;
        assert(states[i] == buckets[i].state);
    }
    lemma_sum_covers(recs, states);
    lemma_bucket_total_is_sum(buckets, recs);
}

/// Every exported state code is UNKNOWN (0) or one of CLOSED..TIME_WAIT (1..11).
pub proof fn lemma_exported_state_in_range(p: TcpSocketRecord, r: RecordView)
    requires
        exported(p, r),
    ensures
        0 <= p.state <= 11,
        forall|k: i32| r.state == Some(k) && 0 <= k <= 10 ==> p.state == k + 1,
{
}

} // verus!
