//! Parsers for the FreeBSD `tcp_stats_kld` device stream and the `kern.file`
//! descriptor table, and their join on the kernel socket address.

use vstd::prelude::*;
use std::collections::HashMap;
use std::time::Instant;
use crate::bytes::{le_i32, le_u16, le_u32, le_u64, read_le_i32, read_le_u16, read_le_u32, read_le_u64};
use crate::clock::elapsed_ns;
use crate::platform::freebsd_layout::{
    before_nul, decode_record, decode_spec, extract_nul_string, TcpStatsRecord, TcpstatsVersion,
    AF_INET6, DATA_SOURCE_FREEBSD_KLD, DATA_SOURCE_KERN_FILE, DTYPE_SOCKET, TCP_STATS_RECORD_SIZE,
    TCP_STATS_VERSION, TSR_F_IPV6,
};
use crate::platform::{CollectError, CollectionResult};
use crate::record::{record_views, IpAddr, RawSocketRecord, RecordView};
use crate::text::{decimal, push_decimal, utf8_lossy};

verus! {

broadcast use vstd::std_specs::hash::group_hash_axioms;

/// The record is IPv6: flagged so, or of address family `AF_INET6`.
pub open spec fn kld_is_ipv6(t: TcpStatsRecord) -> bool {
    (t.tsr_flags & TSR_F_IPV6) != 0 || t.tsr_af == AF_INET6
}

/// `None` for the empty string, else the string.
pub open spec fn non_empty(s: Seq<char>) -> Option<Seq<char>> {
    if s.len() == 0 {
        None
    } else {
        Some(s)
    }
}

/// A kernel timer in milliseconds; negative values (not running) become 0.
pub open spec fn normalize_timer(v: i32) -> Option<u32> {
    Some(if v < 0 { 0u32 } else { v as u32 })
}

/// The socket record a KLD record describes. Addresses are the full 16 bytes
/// for IPv6 and the first 4 for IPv4; the CC algorithm and stack names are
/// the NUL-terminated strings, absent when empty; pid, fd, retransmit shift
/// and start time are not in the record.
#[verifier::opaque]
pub open spec fn kld_to_raw_spec(t: TcpStatsRecord) -> RecordView {
    let v6 = kld_is_ipv6(t);
    RecordView {
        local_addr: Some(
            if v6 {
                IpAddr::V6(t.tsr_local_addr)
            } else {
                IpAddr::V4(
                    [t.tsr_local_addr[0], t.tsr_local_addr[1], t.tsr_local_addr[2], t.tsr_local_addr[3]],
                )
            },
        ),
        remote_addr: Some(
            if v6 {
                IpAddr::V6(t.tsr_remote_addr)
            } else {
                IpAddr::V4(
                    [
                        t.tsr_remote_addr[0],
                        t.tsr_remote_addr[1],
                        t.tsr_remote_addr[2],
                        t.tsr_remote_addr[3],
                    ],
                )
            },
        ),
        local_port: Some(t.tsr_local_port),
        remote_port: Some(t.tsr_remote_port),
        ip_version: Some(if v6 { 6u8 } else { 4u8 }),
        socket_id: Some(t.tsr_so_addr),
        state: Some(t.tsr_state),
        tcp_flags: Some(t.tsr_flags_tcp),
        snd_cwnd: Some(t.tsr_snd_cwnd),
        snd_ssthresh: Some(t.tsr_snd_ssthresh),
        snd_wnd: Some(t.tsr_snd_wnd),
        rcv_wnd: Some(t.tsr_rcv_wnd),
        maxseg: Some(t.tsr_maxseg),
        cc_algo: non_empty(utf8_lossy(before_nul(t.tsr_cc@))),
        tcp_stack: non_empty(utf8_lossy(before_nul(t.tsr_stack@))),
        rtt_us: Some(t.tsr_rtt),
        rttvar_us: Some(t.tsr_rttvar),
        rto_us: Some(t.tsr_rto),
        rtt_min_us: Some(t.tsr_rttmin),
        snd_nxt: Some(t.tsr_snd_nxt),
        snd_una: Some(t.tsr_snd_una),
        snd_max: Some(t.tsr_snd_max),
        rcv_nxt: Some(t.tsr_rcv_nxt),
        rcv_adv: Some(t.tsr_rcv_adv),
        snd_wscale: Some(t.tsr_snd_wscale as u32),
        rcv_wscale: Some(t.tsr_rcv_wscale as u32),
        options: Some(t.tsr_options),
        snd_rexmitpack: Some(t.tsr_snd_rexmitpack),
        rcv_ooopack: Some(t.tsr_rcv_ooopack),
        snd_zerowin: Some(t.tsr_snd_zerowin),
        dupacks: Some(t.tsr_dupacks),
        rcv_numsacks: Some(t.tsr_rcv_numsacks),
        rxt_shift: None,
        ecn_flags: Some(t.tsr_ecn),
        delivered_ce: Some(t.tsr_delivered_ce),
        received_ce: Some(t.tsr_received_ce),
        dsack_bytes: Some(t.tsr_dsack_bytes),
        dsack_pack: Some(t.tsr_dsack_pack),
        total_tlp: Some(t.tsr_total_tlp),
        total_tlp_bytes: Some(t.tsr_total_tlp_bytes),
        timer_rexmt_ms: normalize_timer(t.tsr_tt_rexmt),
        timer_persist_ms: normalize_timer(t.tsr_tt_persist),
        timer_keep_ms: normalize_timer(t.tsr_tt_keep),
        timer_2msl_ms: normalize_timer(t.tsr_tt_2msl),
        timer_delack_ms: normalize_timer(t.tsr_tt_delack),
        idle_time_ms: normalize_timer(t.tsr_rcvtime),
        snd_buf_used: Some(t.tsr_snd_buf_cc),
        snd_buf_hiwat: Some(t.tsr_snd_buf_hiwat),
        rcv_buf_used: Some(t.tsr_rcv_buf_cc),
        rcv_buf_hiwat: Some(t.tsr_rcv_buf_hiwat),
        pid: None,
        effective_pid: None,
        uid: Some(t.tsr_uid),
        fd: None,
        inp_gencnt: Some(t.tsr_inp_gencnt),
        start_time_secs: None,
        sources: seq![DATA_SOURCE_FREEBSD_KLD],
    }
}

fn name_or_none(bytes: &[u8]) -> (r: Option<String>)
    ensures
        match r {
            Some(s) => non_empty(utf8_lossy(before_nul(bytes@))) == Some(s@),
            None => non_empty(utf8_lossy(before_nul(bytes@))) is None,
        },
{
    let s = extract_nul_string(bytes);
    if s.as_str().is_empty() {
        None
    } else {
        Some(s)
    }
}

fn normalize_timer_ms(v: i32) -> (r: Option<u32>)
    ensures
        r == normalize_timer(v),
{
    Some(if v < 0 { 0 } else { v as u32 })
}

/// Convert a single KLD C record to a `RawSocketRecord`.
fn kld_record_to_raw(tsr: &TcpStatsRecord) -> (r: RawSocketRecord)
    ensures
        r@ == kld_to_raw_spec(*tsr),
{
    reveal(kld_to_raw_spec);
    let is_ipv6 = (tsr.tsr_flags & TSR_F_IPV6) != 0 || tsr.tsr_af == AF_INET6;

    let (local_addr, remote_addr, ip_version) = if is_ipv6 {
        (IpAddr::V6(tsr.tsr_local_addr), IpAddr::V6(tsr.tsr_remote_addr), 6u8)
    } else {
        let la = tsr.tsr_local_addr;
        let ra = tsr.tsr_remote_addr;
        (IpAddr::V4([la[0], la[1], la[2], la[3]]), IpAddr::V4([ra[0], ra[1], ra[2], ra[3]]), 4u8)
    };

    // NUL-terminated strings for CC algo and TCP stack.
    let cc_algo = name_or_none(tsr.tsr_cc.as_slice());
    let tcp_stack = name_or_none(tsr.tsr_stack.as_slice());

    let sources = vec![DATA_SOURCE_FREEBSD_KLD];
    let r = RawSocketRecord {
        // Connection identity
        local_addr: Some(local_addr),
        remote_addr: Some(remote_addr),
        local_port: Some(tsr.tsr_local_port),
        remote_port: Some(tsr.tsr_remote_port),
        ip_version: Some(ip_version),
        socket_id: Some(tsr.tsr_so_addr),
        // TCP state (FreeBSD TCPS_* values are the same as macOS: 0-10)
        state: Some(tsr.tsr_state),
        tcp_flags: Some(tsr.tsr_flags_tcp),
        // Congestion control
        snd_cwnd: Some(tsr.tsr_snd_cwnd),
        snd_ssthresh: Some(tsr.tsr_snd_ssthresh),
        snd_wnd: Some(tsr.tsr_snd_wnd),
        rcv_wnd: Some(tsr.tsr_rcv_wnd),
        maxseg: Some(tsr.tsr_maxseg),
        cc_algo,
        tcp_stack,
        // RTT (already in microseconds from tcp_fill_info in the KLD)
        rtt_us: Some(tsr.tsr_rtt),
        rttvar_us: Some(tsr.tsr_rttvar),
        rto_us: Some(tsr.tsr_rto),
        rtt_min_us: Some(tsr.tsr_rttmin),
        // Sequence numbers
        snd_nxt: Some(tsr.tsr_snd_nxt),
        snd_una: Some(tsr.tsr_snd_una),
        snd_max: Some(tsr.tsr_snd_max),
        rcv_nxt: Some(tsr.tsr_rcv_nxt),
        rcv_adv: Some(tsr.tsr_rcv_adv),
        // Window scale and options
        snd_wscale: Some(tsr.tsr_snd_wscale as u32),
        rcv_wscale: Some(tsr.tsr_rcv_wscale as u32),
        options: Some(tsr.tsr_options),
        // Counters
        snd_rexmitpack: Some(tsr.tsr_snd_rexmitpack),
        rcv_ooopack: Some(tsr.tsr_rcv_ooopack),
        snd_zerowin: Some(tsr.tsr_snd_zerowin),
        dupacks: Some(tsr.tsr_dupacks),
        rcv_numsacks: Some(tsr.tsr_rcv_numsacks),
        // Not available from KLD
        rxt_shift: None,
        // ECN
        ecn_flags: Some(tsr.tsr_ecn),
        delivered_ce: Some(tsr.tsr_delivered_ce),
        received_ce: Some(tsr.tsr_received_ce),
        // DSACK
        dsack_bytes: Some(tsr.tsr_dsack_bytes),
        dsack_pack: Some(tsr.tsr_dsack_pack),
        // TLP
        total_tlp: Some(tsr.tsr_total_tlp),
        total_tlp_bytes: Some(tsr.tsr_total_tlp_bytes),
        // Timers: negative values become 0 (timer not running)
        timer_rexmt_ms: normalize_timer_ms(tsr.tsr_tt_rexmt),
        timer_persist_ms: normalize_timer_ms(tsr.tsr_tt_persist),
        timer_keep_ms: normalize_timer_ms(tsr.tsr_tt_keep),
        timer_2msl_ms: normalize_timer_ms(tsr.tsr_tt_2msl),
        timer_delack_ms: normalize_timer_ms(tsr.tsr_tt_delack),
        idle_time_ms: normalize_timer_ms(tsr.tsr_rcvtime),
        // Buffers
        snd_buf_used: Some(tsr.tsr_snd_buf_cc),
        snd_buf_hiwat: Some(tsr.tsr_snd_buf_hiwat),
        rcv_buf_used: Some(tsr.tsr_rcv_buf_cc),
        rcv_buf_hiwat: Some(tsr.tsr_rcv_buf_hiwat),
        // PID and FD are not in the KLD record: joined later via kern.file.
        pid: None,
        effective_pid: None,
        uid: Some(tsr.tsr_uid),
        fd: None,
        inp_gencnt: Some(tsr.tsr_inp_gencnt),
        start_time_secs: None,
        // Data source
        sources,
    };
    assert(r.sources@ =~= seq![DATA_SOURCE_FREEBSD_KLD]);
    r
}

/// The `i`-th 320-byte record of a KLD buffer.
pub open spec fn kld_chunk(buf: Seq<u8>, i: int) -> Seq<u8> {
    buf.subrange(i * 320, i * 320 + 320)
}

/// The protocol version field of the `i`-th record.
pub open spec fn kld_version(buf: Seq<u8>, i: int) -> u32 {
    le_u32(kld_chunk(buf, i), 0)
}

/// The socket records of a KLD buffer whose records all carry the expected
/// version, in buffer order.
pub open spec fn kld_records(buf: Seq<u8>) -> Seq<RecordView> {
    Seq::new(
        (buf.len() / 320) as nat,
        |i: int| kld_to_raw_spec(decode_spec(kld_chunk(buf, i))),
    )
}

/// The message of the error for a buffer that is not a whole number of records.
pub open spec fn misaligned_message(len: nat) -> Seq<char> {
    "buffer size "@ + decimal(len) + " is not a multiple of record size "@ + decimal(320)
}

/// Parse a buffer of concatenated 320-byte KLD records into `RawSocketRecord`s.
///
/// An empty buffer has no records; a length that is not a multiple of 320 is
/// a `Parse` error; the first record with a version other than
/// `TCP_STATS_VERSION` is a `VersionMismatch`; otherwise every record is
/// converted, in order.
pub fn parse_kld_records(buf: &[u8]) -> (r: Result<Vec<RawSocketRecord>, CollectError>)
    ensures
        buf@.len() % 320 != 0 ==> (r matches Err(CollectError::Parse { offset, message })
            && offset == 0 && message@ == misaligned_message(buf@.len())),
        buf@.len() % 320 == 0 && (forall|i: int|
            0 <= i < buf@.len() / 320 ==> #[trigger] kld_version(buf@, i) == TCP_STATS_VERSION)
            ==> (r matches Ok(v) && record_views(v@) == kld_records(buf@)),
        buf@.len() % 320 == 0 && !(forall|i: int|
            0 <= i < buf@.len() / 320 ==> #[trigger] kld_version(buf@, i) == TCP_STATS_VERSION)
            ==> (r matches Err(CollectError::VersionMismatch { expected, got })
            && expected == TCP_STATS_VERSION && exists|k: int|
            0 <= k < buf@.len() / 320 && got == #[trigger] kld_version(buf@, k) && got
                != TCP_STATS_VERSION && forall|j: int|
                0 <= j < k ==> kld_version(buf@, j) == TCP_STATS_VERSION),
{
    if buf.len() == 0 {
        let v: Vec<RawSocketRecord> = Vec::new();
        assert(record_views(v@) =~= kld_records(buf@));
        return Ok(v);
    }
    if buf.len() % TCP_STATS_RECORD_SIZE != 0 {
        let mut message = String::from_str("buffer size ");
        push_decimal(&mut message, buf.len() as u64);
        message.append(" is not a multiple of record size ");
        push_decimal(&mut message, TCP_STATS_RECORD_SIZE as u64);
        return Err(CollectError::Parse { offset: 0, message });
    }

    let count = buf.len() / TCP_STATS_RECORD_SIZE;
    let mut records: Vec<RawSocketRecord> = Vec::new();
    let len = buf.len();
    let mut i: usize = 0;
    while i < count
        invariant
            len == buf@.len(),
            count == buf@.len() / 320,
            buf@.len() % 320 == 0,
            i <= count,
            record_views(records@) =~= kld_records(buf@).take(i as int),
            forall|j: int| 0 <= j < i ==> #[trigger] kld_version(buf@, j) == TCP_STATS_VERSION,
        decreases count - i,
    {
        assert(i * 320 + 320 <= buf@.len()) by (nonlinear_arith)
            requires
                i < count,
                count == buf@.len() / 320,
                buf@.len() % 320 == 0,
        ;
        let offset = i * TCP_STATS_RECORD_SIZE;
        let chunk = &buf[offset..offset + TCP_STATS_RECORD_SIZE];
        assert(chunk@ == kld_chunk(buf@, i as int));
        let tsr = decode_record(chunk);
        if tsr.tsr_version != TCP_STATS_VERSION {
            assert(kld_version(buf@, i as int) == tsr.tsr_version);
            return Err(CollectError::VersionMismatch { expected: TCP_STATS_VERSION, got: tsr.tsr_version });
        }
        let rec = kld_record_to_raw(&tsr);
        let ghost before = records@;
        records.push(rec);
        assert(record_views(records@) =~= record_views(before).push(rec@));
        assert(kld_records(buf@).take(i + 1) =~= kld_records(buf@).take(i as int).push(rec@));
        i = i + 1;
    }
    assert(kld_records(buf@).take(count as int) =~= kld_records(buf@));
    Ok(records)
}

/// Socket address -> (pid, fd) from `kern.file`.
pub type PidMap = HashMap<u64, (i32, i32)>;

/// A `struct xfile` entry describes a socket: `xf_type` (u16 at 24) is
/// `DTYPE_SOCKET`.
pub open spec fn xfile_is_socket(entry: Seq<u8>) -> bool {
    le_u16(entry, 24) == DTYPE_SOCKET
}

/// The socket's kernel address `xf_data` (u64 at 40).
pub open spec fn xfile_data(entry: Seq<u8>) -> u64 {
    le_u64(entry, 40)
}

/// The owning process `xf_pid` (i32 at 8) and descriptor `xf_fd` (i32 at 16).
pub open spec fn xfile_pid_fd(entry: Seq<u8>) -> (i32, i32) {
    (le_i32(entry, 8), le_i32(entry, 16))
}

/// `m` after one entry: a socket entry maps its address unless an earlier
/// entry already did (the first pid seen wins).
pub open spec fn add_xfile(m: Map<u64, (i32, i32)>, entry: Seq<u8>) -> Map<u64, (i32, i32)> {
    if xfile_is_socket(entry) && !m.dom().contains(xfile_data(entry)) {
        m.insert(xfile_data(entry), xfile_pid_fd(entry))
    } else {
        m
    }
}

/// `m` after the entries of `stride` bytes from `pos` on, up to the last
/// whole one.
pub open spec fn scan_xfiles(buf: Seq<u8>, stride: int, pos: int, m: Map<u64, (i32, i32)>) -> Map<
    u64,
    (i32, i32),
>
    decreases buf.len() - pos,
{
    if stride <= 0 || pos < 0 || pos + stride > buf.len() {
        m
    } else {
        scan_xfiles(buf, stride, pos + stride, add_xfile(m, buf.subrange(pos, pos + stride)))
    }
}

/// The stride of a `kern.file` buffer: `xf_size`, the first u64.
pub open spec fn xfile_stride(buf: Seq<u8>) -> u64 {
    le_u64(buf, 0)
}

/// The pid map a `kern.file` buffer yields: empty when it is shorter than 8
/// bytes or its stride is 0, beyond the buffer or below 48 (too short to hold
/// `xf_data`); else the scan of its entries.
pub open spec fn kern_file_map(buf: Seq<u8>) -> Map<u64, (i32, i32)> {
    if buf.len() < 8 {
        Map::empty()
    } else {
        let stride = xfile_stride(buf) as int;
        if stride == 0 || stride > buf.len() || stride < 48 {
            Map::empty()
        } else {
            scan_xfiles(buf, stride, 0, Map::empty())
        }
    }
}

/// Parse FreeBSD `kern.file` sysctl output (array of `struct xfile`).
///
/// `xf_size` at offset 0 gives the stride; entries of type `DTYPE_SOCKET`
/// map their socket address `xf_data` to `(xf_pid, xf_fd)`, the first entry
/// for an address winning. Never fails.
pub fn parse_kern_file(buf: &[u8]) -> (r: Result<PidMap, CollectError>)
    requires
        buf@.len() <= isize::MAX,
    ensures
        r matches Ok(m) && m@ == kern_file_map(buf@),
{
    let mut map: PidMap = HashMap::new();
    if buf.len() < 4 {
        return Ok(map);
    }
    // Read stride from first entry.
    if buf.len() < 8 {
        return Ok(map);
    }
    let stride64 = read_le_u64(buf, 0);
    if stride64 == 0 || stride64 > buf.len() as u64 {
        return Ok(map);
    }
    let stride = stride64 as usize;
    // Minimum offsets we need: xf_data at offset 40 + 8 = 48.
    if stride < 48 {
        return Ok(map);
    }

    let mut pos: usize = 0;
    while pos <= buf.len() && stride <= buf.len() - pos
        invariant
            buf@.len() <= isize::MAX,
            48 <= stride <= buf@.len(),
            pos <= buf@.len(),
            kern_file_map(buf@) == scan_xfiles(buf@, stride as int, pos as int, map@),
        decreases buf@.len() - pos,
    {
        let entry = &buf[pos..pos + stride];
        let xf_type = read_le_u16(entry, 24);
        if xf_type == DTYPE_SOCKET {
            let xf_pid = read_le_i32(entry, 8);
            let xf_fd = read_le_i32(entry, 16);
            let xf_data = read_le_u64(entry, 40);
            // First PID seen for this socket wins (multi-FD sharing is rare).
            if !map.contains_key(&xf_data) {
                map.insert(xf_data, (xf_pid, xf_fd));
            }
        }
        proof {
            assert(entry@ == buf@.subrange(pos as int, pos + stride));
        }
        pos = pos + stride;
    }
    Ok(map)
}

/// `r` joined with the pid map: when its socket address is mapped, pid and
/// fd are set and the `kern.file` source tag is added (once).
pub open spec fn enrich_spec(r: RecordView, m: Map<u64, (i32, i32)>) -> RecordView {
    match r.socket_id {
        Some(id) => if m.dom().contains(id) {
            RecordView {
                pid: Some(m[id].0),
                fd: Some(m[id].1),
                sources: if r.sources.contains(DATA_SOURCE_KERN_FILE) {
                    r.sources
                } else {
                    r.sources.push(DATA_SOURCE_KERN_FILE)
                },
                ..r
            }
        } else {
            r
        },
        None => r,
    }
}

fn contains_byte(v: &Vec<u8>, b: u8) -> (r: bool)
    ensures
        r == v@.contains(b),
{
    let mut i: usize = 0;
    while i < v.len()
        invariant
            i <= v@.len(),
            forall|j: int| 0 <= j < i ==> v@[j] != b,
        decreases v@.len() - i,
    {
        if v[i] == b {
            return true;
        }
        i = i + 1;
    }
    false
}

/// Enrich records with PID and FD information from the `kern.file` pid map,
/// joining on the socket id (`tsr_so_addr == xf_data`).
pub fn enrich_with_pid_mapping(records: &mut Vec<RawSocketRecord>, pid_map: &PidMap)
    ensures
        final(records)@.len() == old(records)@.len(),
        forall|i: int|
            0 <= i < old(records)@.len() ==> (#[trigger] final(records)@[i])@ == enrich_spec(
                old(records)@[i]@,
                pid_map@,
            ),
{
    let n = records.len();
    let mut i: usize = 0;
    while i < n
        invariant
            n == records@.len(),
            n == old(records)@.len(),
            i <= n,
            forall|j: int| 0 <= j < i ==> (#[trigger] records@[j])@ == enrich_spec(old(records)@[j]@, pid_map@),
            forall|j: int| i <= j < n ==> #[trigger] records@[j] == old(records)@[j],
        decreases n - i,
    {
        let mut rec = RawSocketRecord::empty();
        records.set_and_swap(i, &mut rec);
        let ghost orig = rec@;
        if let Some(socket_id) = rec.socket_id {
            if let Some(entry) = pid_map.get(&socket_id) {
                let (pid, fd) = *entry;
                rec.pid = Some(pid);
                rec.fd = Some(fd);
                if !contains_byte(&rec.sources, DATA_SOURCE_KERN_FILE) {
                    rec.sources.push(DATA_SOURCE_KERN_FILE);
                }
            }
        }
        assert(rec@ == enrich_spec(orig, pid_map@));
        records.set_and_swap(i, &mut rec);
        i = i + 1;
    }
}

/// Checks the protocol version the device reports.
pub fn check_version(ver: &TcpstatsVersion) -> (r: Result<(), CollectError>)
    ensures
        ver.protocol_version == TCP_STATS_VERSION ==> r is Ok,
        ver.protocol_version != TCP_STATS_VERSION ==> (r matches Err(
            CollectError::VersionMismatch { expected, got },
        ) && expected == TCP_STATS_VERSION && got == ver.protocol_version),
{
    if ver.protocol_version != TCP_STATS_VERSION {
        return Err(
            CollectError::VersionMismatch { expected: TCP_STATS_VERSION, got: ver.protocol_version },
        );
    }
    Ok(())
}

/// The read buffer size for a device reporting `hint` records: room for 20%
/// more records plus 64, and at least 64 KiB.
pub fn read_capacity(hint: u32) -> (cap: usize)
    requires
        (hint + hint / 5 + 64) * 320 <= usize::MAX,
    ensures
        cap == if (hint + hint / 5 + 64) * 320 > 65536 {
            (hint + hint / 5 + 64) * 320
        } else {
            65536
        },
{
    let hint = hint as usize;
    let wanted = (hint + hint / 5 + 64) * TCP_STATS_RECORD_SIZE;
    if wanted > 64 * 1024 {
        wanted
    } else {
        64 * 1024
    }
}

/// Assembles a FreeBSD collection pass from the device's record buffer and,
/// when `kern.file` could be read, its buffer: the records are those of
/// `parse_kld_records`, joined with the pid map of `kern.file`; the
/// generation is the record count (the device has no generation counter);
/// the duration runs from `started` until now.
pub fn collect(records_buf: &[u8], kern_file: Option<&[u8]>, started: &Instant) -> (r: Result<
    CollectionResult,
    CollectError,
>)
    requires
        kern_file matches Some(k) ==> k@.len() <= isize::MAX,
    ensures
        records_buf@.len() % 320 != 0 ==> r matches Err(CollectError::Parse { .. }),
        records_buf@.len() % 320 == 0 && !(forall|i: int|
            0 <= i < records_buf@.len() / 320 ==> #[trigger] kld_version(records_buf@, i)
                == TCP_STATS_VERSION) ==> r matches Err(CollectError::VersionMismatch { .. }),
        records_buf@.len() % 320 == 0 && (forall|i: int|
            0 <= i < records_buf@.len() / 320 ==> #[trigger] kld_version(records_buf@, i)
                == TCP_STATS_VERSION) ==> (r matches Ok(c) && c.generation == records_buf@.len()
            / 320 && c.records@.len() == records_buf@.len() / 320 && forall|i: int|
            0 <= i < c.records@.len() ==> (#[trigger] c.records@[i])@ == match kern_file {
                Some(k) => enrich_spec(kld_records(records_buf@)[i], kern_file_map(k@)),
                None => kld_records(records_buf@)[i],
            }),
{
    let mut records = parse_kld_records(records_buf)?;
    // The record count serves as the generation (the device has no counter).
    let generation = records.len() as u64;
    proof {
        assert(record_views(records@).len() == records@.len());
        assert forall|i: int| 0 <= i < records@.len() implies (#[trigger] records@[i])@
            == kld_records(records_buf@)[i] by {
            assert(record_views(records@)[i] == records@[i]@);
        }
    }
    let ghost parsed = records@;
    if let Some(k) = kern_file {
        let pid_map = parse_kern_file(k)?;
        enrich_with_pid_mapping(&mut records, &pid_map);
        assert(forall|i: int| 0 <= i < records@.len() ==> (#[trigger] records@[i])@
            == enrich_spec(parsed[i]@, kern_file_map(k@)));
    }
    let duration = elapsed_ns(started);
    Ok(CollectionResult { records, generation, collection_duration_ns: duration })
}

/// Scanning further entries never changes an address already mapped.
pub proof fn lemma_scan_keeps_mapped(buf: Seq<u8>, stride: int, pos: int, m: Map<u64, (i32, i32)>, a: u64)
    requires
        m.dom().contains(a),
    ensures
        scan_xfiles(buf, stride, pos, m).dom().contains(a),
        scan_xfiles(buf, stride, pos, m)[a] == m[a],
    decreases buf.len() - pos,
{
    if stride <= 0 || pos < 0 || pos + stride > buf.len() {
    } else {
        lemma_scan_keeps_mapped(buf, stride, pos + stride, add_xfile(m, buf.subrange(pos, pos + stride)), a);
    }
}

/// The first pid seen for a socket wins: when the entry at `pos` is a
/// socket entry whose address is not mapped yet, the scan maps that address
/// to this entry's pid and fd, whatever entries follow.
pub proof fn lemma_first_entry_wins(buf: Seq<u8>, stride: int, pos: int, m: Map<u64, (i32, i32)>)
    requires
        stride > 0,
        0 <= pos,
        pos + stride <= buf.len(),
        xfile_is_socket(buf.subrange(pos, pos + stride)),
        !m.dom().contains(xfile_data(buf.subrange(pos, pos + stride))),
    ensures
        ({
            let e = buf.subrange(pos, pos + stride);
            scan_xfiles(buf, stride, pos, m)[xfile_data(e)] == xfile_pid_fd(e)
        }),
{
    let e = buf.subrange(pos, pos + stride);
    lemma_scan_keeps_mapped(buf, stride, pos + stride, add_xfile(m, e), xfile_data(e));
}

/// Joining a record with the pid map twice is joining it once: the source
/// tag is not added again and pid and fd are the same.
pub proof fn lemma_enrich_idempotent(r: RecordView, m: Map<u64, (i32, i32)>)
    ensures
        enrich_spec(enrich_spec(r, m), m) == enrich_spec(r, m),
{
    if let Some(id) = r.socket_id {
        if m.dom().contains(id) && !r.sources.contains(DATA_SOURCE_KERN_FILE) {
            let s = r.sources.push(DATA_SOURCE_KERN_FILE);
            assert(s[s.len() - 1] == DATA_SOURCE_KERN_FILE);
            assert(s.contains(DATA_SOURCE_KERN_FILE));
        }
    }
}

/// Every record parsed from a KLD buffer carries exactly the KLD source
/// tag, and there is one record per 320 bytes.
pub proof fn lemma_kld_records_tagged(buf: Seq<u8>)
    ensures
        kld_records(buf).len() == buf.len() / 320,
        forall|i: int|
            0 <= i < kld_records(buf).len() ==> (#[trigger] kld_records(buf)[i]).sources == seq![
                DATA_SOURCE_FREEBSD_KLD,
            ],
{
    reveal(kld_to_raw_spec);
}

/// Field by field, the socket record of the `i`-th 320-byte KLD record is
/// read from that record's bytes (little-endian): each counter, window,
/// buffer and sequence field from its own offset of `struct
/// tcp_stats_record`, timers with "not running" (negative) as 0, and the
/// IP version 6 when the record is flagged IPv6 or of family `AF_INET6`.
///
/// Stated of parsed records (`recs`, as `parse_kld_records` returns them).
pub proof fn lemma_kld_record_fields(buf: Seq<u8>, recs: Seq<RawSocketRecord>, i: int)
    requires
        record_views(recs) == kld_records(buf),
        0 <= i < recs.len(),
    ensures
        ({
            let c = buf.subrange(i * 320, i * 320 + 320);
            let r = recs[i];
            &&& c.len() == 320
            &&& r.snd_cwnd == Some(le_u32(c, 64))
            &&& r.snd_ssthresh == Some(le_u32(c, 68))
            &&& r.snd_wnd == Some(le_u32(c, 72))
            &&& r.rcv_wnd == Some(le_u32(c, 76))
            &&& r.maxseg == Some(le_u32(c, 80))
            &&& r.rtt_us == Some(le_u32(c, 116))
            &&& r.rttvar_us == Some(le_u32(c, 120))
            &&& r.rto_us == Some(le_u32(c, 124))
            &&& r.rtt_min_us == Some(le_u32(c, 128))
            &&& r.snd_nxt == Some(le_u32(c, 136))
            &&& r.snd_una == Some(le_u32(c, 140))
            &&& r.snd_max == Some(le_u32(c, 144))
            &&& r.rcv_nxt == Some(le_u32(c, 148))
            &&& r.rcv_adv == Some(le_u32(c, 152))
            &&& r.snd_rexmitpack == Some(le_u32(c, 156))
            &&& r.rcv_ooopack == Some(le_u32(c, 160))
            &&& r.snd_zerowin == Some(le_u32(c, 164))
            &&& r.dupacks == Some(le_u32(c, 168))
            &&& r.rcv_numsacks == Some(le_u32(c, 172))
            &&& r.ecn_flags == Some(le_u32(c, 176))
            &&& r.delivered_ce == Some(le_u32(c, 180))
            &&& r.received_ce == Some(le_u32(c, 184))
            &&& r.dsack_bytes == Some(le_u32(c, 188))
            &&& r.dsack_pack == Some(le_u32(c, 192))
            &&& r.total_tlp == Some(le_u32(c, 196))
            &&& r.snd_buf_used == Some(le_u32(c, 232))
            &&& r.snd_buf_hiwat == Some(le_u32(c, 236))
            &&& r.rcv_buf_used == Some(le_u32(c, 240))
            &&& r.rcv_buf_hiwat == Some(le_u32(c, 244))
            &&& r.uid == Some(le_u32(c, 256))
            &&& r.tcp_flags == Some(le_u32(c, 60))
            &&& r.timer_rexmt_ms == Some(if le_i32(c, 208) < 0 { 0u32 } else { le_i32(c, 208) as u32 })
            &&& r.timer_persist_ms == Some(if le_i32(c, 212) < 0 { 0u32 } else { le_i32(c, 212) as u32 })
            &&& r.timer_keep_ms == Some(if le_i32(c, 216) < 0 { 0u32 } else { le_i32(c, 216) as u32 })
            &&& r.timer_2msl_ms == Some(if le_i32(c, 220) < 0 { 0u32 } else { le_i32(c, 220) as u32 })
            &&& r.timer_delack_ms == Some(if le_i32(c, 224) < 0 { 0u32 } else { le_i32(c, 224) as u32 })
            &&& r.idle_time_ms == Some(if le_i32(c, 228) < 0 { 0u32 } else { le_i32(c, 228) as u32 })
            &&& r.local_port == Some(le_u16(c, 20))
            &&& r.remote_port == Some(le_u16(c, 22))
            &&& r.state == Some(le_i32(c, 56))
            &&& r.total_tlp_bytes == Some(le_u64(c, 200))
            &&& r.socket_id == Some(le_u64(c, 248))
            &&& r.inp_gencnt == Some(le_u64(c, 260))
            &&& r.snd_wscale == Some(c[132] as u32)
            &&& r.rcv_wscale == Some(c[133] as u32)
            &&& r.options == Some(c[134])
            &&& r.ip_version == Some(if (le_u32(c, 8) & 1) != 0 || c[16] == 28 { 6u8 } else { 4u8 })
            &&& r.pid is None && r.fd is None && r.rxt_shift is None && r.start_time_secs is None
            &&& r.sources@ == seq![5u8]
        }),
{
    reveal(kld_to_raw_spec);
    reveal(decode_spec);
    assert(record_views(recs).len() == recs.len());
    assert(kld_records(buf).len() == buf.len() / 320);
    assert(record_views(recs)[i] == recs[i]@);
    assert(i < buf.len() / 320);
    assert(i * 320 + 320 <= buf.len()) by (nonlinear_arith)
        requires
            0 <= i < buf.len() / 320,
    ;
    assert(TSR_F_IPV6 == 1 && AF_INET6 == 28);
}

} // verus!
