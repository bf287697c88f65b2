//! The FreeBSD `tcp_stats_kld` record layout.
//!
//! Mirrors the C `struct tcp_stats_record` of the kernel module: 320 bytes,
//! packed, in the host's byte order.

use vstd::prelude::*;
use vstd::utf8::{decode_utf8, valid_utf8};
use crate::bytes::{le_i32, le_u16, le_u32, le_u64, read_le_i32, read_le_u16, read_le_u32, read_le_u64};
use crate::text::{all_ascii, ascii_chars, from_utf8_lossy, utf8_lossy};

verus! {

/// Fixed record size from the kernel module.
pub const TCP_STATS_RECORD_SIZE: usize = 320;

/// Protocol version this client expects.
pub const TCP_STATS_VERSION: u32 = 1;

/// Maximum length of CC algorithm name (NUL-terminated).
pub const TCP_STATS_CC_MAXLEN: usize = 16;

/// Maximum length of TCP stack name (NUL-terminated).
pub const TCP_STATS_STACK_MAXLEN: usize = 16;

// Record flags
pub const TSR_F_IPV6: u32 = 0x0000_0001;
pub const TSR_F_LISTEN: u32 = 0x0000_0002;
pub const TSR_F_SYNCACHE: u32 = 0x0000_0004;

// Address family constants (FreeBSD)
pub const AF_INET: u8 = 2;
pub const AF_INET6: u8 = 28;

// DataSource enum values matching the export schema
pub const DATA_SOURCE_FREEBSD_KLD: u8 = 5;
pub const DATA_SOURCE_KERN_FILE: u8 = 6;

/// Mirror of `struct tcp_stats_record` (320 bytes, packed), field by field.
#[derive(Debug, Clone, Copy)]
pub struct TcpStatsRecord {
    // Record header (16 bytes)
    pub tsr_version: u32,
    pub tsr_len: u32,
    pub tsr_flags: u32,
    pub _tsr_pad0: u32,
    // Connection identity (48 bytes)
    pub tsr_af: u8,
    pub _tsr_pad1: [u8; 3],
    pub tsr_local_port: u16,
    pub tsr_remote_port: u16,
    pub tsr_local_addr: [u8; 16],
    pub tsr_remote_addr: [u8; 16],
    // TCP state (8 bytes)
    pub tsr_state: i32,
    pub tsr_flags_tcp: u32,
    // Congestion control (52 bytes)
    pub tsr_snd_cwnd: u32,
    pub tsr_snd_ssthresh: u32,
    pub tsr_snd_wnd: u32,
    pub tsr_rcv_wnd: u32,
    pub tsr_maxseg: u32,
    pub tsr_cc: [u8; 16],
    pub tsr_stack: [u8; 16],
    // RTT from tcp_fill_info() (16 bytes)
    pub tsr_rtt: u32,
    pub tsr_rttvar: u32,
    pub tsr_rto: u32,
    pub tsr_rttmin: u32,
    // Window scale + options (4 bytes)
    pub tsr_snd_wscale: u8,
    pub tsr_rcv_wscale: u8,
    pub tsr_options: u8,
    pub _tsr_pad2: u8,
    // Sequence numbers from tcp_fill_info() (20 bytes)
    pub tsr_snd_nxt: u32,
    pub tsr_snd_una: u32,
    pub tsr_snd_max: u32,
    pub tsr_rcv_nxt: u32,
    pub tsr_rcv_adv: u32,
    // Counters (20 bytes)
    pub tsr_snd_rexmitpack: u32,
    pub tsr_rcv_ooopack: u32,
    pub tsr_snd_zerowin: u32,
    pub tsr_dupacks: u32,
    pub tsr_rcv_numsacks: u32,
    // ECN (12 bytes)
    pub tsr_ecn: u32,
    pub tsr_delivered_ce: u32,
    pub tsr_received_ce: u32,
    // DSACK (8 bytes)
    pub tsr_dsack_bytes: u32,
    pub tsr_dsack_pack: u32,
    // TLP (12 bytes)
    pub tsr_total_tlp: u32,
    pub tsr_total_tlp_bytes: u64,
    // Timers in milliseconds, 0 = not running (24 bytes)
    pub tsr_tt_rexmt: i32,
    pub tsr_tt_persist: i32,
    pub tsr_tt_keep: i32,
    pub tsr_tt_2msl: i32,
    pub tsr_tt_delack: i32,
    pub tsr_rcvtime: i32,
    // Buffer utilization (16 bytes)
    pub tsr_snd_buf_cc: u32,
    pub tsr_snd_buf_hiwat: u32,
    pub tsr_rcv_buf_cc: u32,
    pub tsr_rcv_buf_hiwat: u32,
    // Socket metadata (20 bytes)
    pub tsr_so_addr: u64,
    pub tsr_uid: u32,
    pub tsr_inp_gencnt: u64,
    // Spare for future expansion (52 bytes)
    pub _tsr_spare: [u32; 13],
}

/// The record encoded in the first 320 bytes of `b`.
#[verifier::opaque]
pub open spec fn decode_spec(b: Seq<u8>) -> TcpStatsRecord {
    TcpStatsRecord {
        tsr_version: le_u32(b, 0),
        tsr_len: le_u32(b, 4),
        tsr_flags: le_u32(b, 8),
        _tsr_pad0: le_u32(b, 12),
        tsr_af: b[16],
        _tsr_pad1: [b[17], b[18], b[19]],
        tsr_local_port: le_u16(b, 20),
        tsr_remote_port: le_u16(b, 22),
        tsr_local_addr: [b[24], b[25], b[26], b[27], b[28], b[29], b[30], b[31], b[32], b[33], b[34], b[35], b[36], b[37], b[38], b[39]],
        tsr_remote_addr: [b[40], b[41], b[42], b[43], b[44], b[45], b[46], b[47], b[48], b[49], b[50], b[51], b[52], b[53], b[54], b[55]],
        tsr_state: le_i32(b, 56),
        tsr_flags_tcp: le_u32(b, 60),
        tsr_snd_cwnd: le_u32(b, 64),
        tsr_snd_ssthresh: le_u32(b, 68),
        tsr_snd_wnd: le_u32(b, 72),
        tsr_rcv_wnd: le_u32(b, 76),
        tsr_maxseg: le_u32(b, 80),
        tsr_cc: [b[84], b[85], b[86], b[87], b[88], b[89], b[90], b[91], b[92], b[93], b[94], b[95], b[96], b[97], b[98], b[99]],
        tsr_stack: [b[100], b[101], b[102], b[103], b[104], b[105], b[106], b[107], b[108], b[109], b[110], b[111], b[112], b[113], b[114], b[115]],
        tsr_rtt: le_u32(b, 116),
        tsr_rttvar: le_u32(b, 120),
        tsr_rto: le_u32(b, 124),
        tsr_rttmin: le_u32(b, 128),
        tsr_snd_wscale: b[132],
        tsr_rcv_wscale: b[133],
        tsr_options: b[134],
        _tsr_pad2: b[135],
        tsr_snd_nxt: le_u32(b, 136),
        tsr_snd_una: le_u32(b, 140),
        tsr_snd_max: le_u32(b, 144),
        tsr_rcv_nxt: le_u32(b, 148),
        tsr_rcv_adv: le_u32(b, 152),
        tsr_snd_rexmitpack: le_u32(b, 156),
        tsr_rcv_ooopack: le_u32(b, 160),
        tsr_snd_zerowin: le_u32(b, 164),
        tsr_dupacks: le_u32(b, 168),
        tsr_rcv_numsacks: le_u32(b, 172),
        tsr_ecn: le_u32(b, 176),
        tsr_delivered_ce: le_u32(b, 180),
        tsr_received_ce: le_u32(b, 184),
        tsr_dsack_bytes: le_u32(b, 188),
        tsr_dsack_pack: le_u32(b, 192),
        tsr_total_tlp: le_u32(b, 196),
        tsr_total_tlp_bytes: le_u64(b, 200),
        tsr_tt_rexmt: le_i32(b, 208),
        tsr_tt_persist: le_i32(b, 212),
        tsr_tt_keep: le_i32(b, 216),
        tsr_tt_2msl: le_i32(b, 220),
        tsr_tt_delack: le_i32(b, 224),
        tsr_rcvtime: le_i32(b, 228),
        tsr_snd_buf_cc: le_u32(b, 232),
        tsr_snd_buf_hiwat: le_u32(b, 236),
        tsr_rcv_buf_cc: le_u32(b, 240),
        tsr_rcv_buf_hiwat: le_u32(b, 244),
        tsr_so_addr: le_u64(b, 248),
        tsr_uid: le_u32(b, 256),
        tsr_inp_gencnt: le_u64(b, 260),
        _tsr_spare: [le_u32(b, 268), le_u32(b, 272), le_u32(b, 276), le_u32(b, 280), le_u32(b, 284), le_u32(b, 288), le_u32(b, 292), le_u32(b, 296), le_u32(b, 300), le_u32(b, 304), le_u32(b, 308), le_u32(b, 312), le_u32(b, 316)],
    }
}

/// Decodes one 320-byte record.
pub fn decode_record(b: &[u8]) -> (r: TcpStatsRecord)
    requires
        b@.len() >= TCP_STATS_RECORD_SIZE,
    ensures
        r == decode_spec(b@),
        r.tsr_version == le_u32(b@, 0),
{
    reveal(decode_spec);
    TcpStatsRecord {
        tsr_version: read_le_u32(b, 0),
        tsr_len: read_le_u32(b, 4),
        tsr_flags: read_le_u32(b, 8),
        _tsr_pad0: read_le_u32(b, 12),
        tsr_af: b[16],
        _tsr_pad1: [b[17], b[18], b[19]],
        tsr_local_port: read_le_u16(b, 20),
        tsr_remote_port: read_le_u16(b, 22),
        tsr_local_addr: [b[24], b[25], b[26], b[27], b[28], b[29], b[30], b[31], b[32], b[33], b[34], b[35], b[36], b[37], b[38], b[39]],
        tsr_remote_addr: [b[40], b[41], b[42], b[43], b[44], b[45], b[46], b[47], b[48], b[49], b[50], b[51], b[52], b[53], b[54], b[55]],
        tsr_state: read_le_i32(b, 56),
        tsr_flags_tcp: read_le_u32(b, 60),
        tsr_snd_cwnd: read_le_u32(b, 64),
        tsr_snd_ssthresh: read_le_u32(b, 68),
        tsr_snd_wnd: read_le_u32(b, 72),
        tsr_rcv_wnd: read_le_u32(b, 76),
        tsr_maxseg: read_le_u32(b, 80),
        tsr_cc: [b[84], b[85], b[86], b[87], b[88], b[89], b[90], b[91], b[92], b[93], b[94], b[95], b[96], b[97], b[98], b[99]],
        tsr_stack: [b[100], b[101], b[102], b[103], b[104], b[105], b[106], b[107], b[108], b[109], b[110], b[111], b[112], b[113], b[114], b[115]],
        tsr_rtt: read_le_u32(b, 116),
        tsr_rttvar: read_le_u32(b, 120),
        tsr_rto: read_le_u32(b, 124),
        tsr_rttmin: read_le_u32(b, 128),
        tsr_snd_wscale: b[132],
        tsr_rcv_wscale: b[133],
        tsr_options: b[134],
        _tsr_pad2: b[135],
        tsr_snd_nxt: read_le_u32(b, 136),
        tsr_snd_una: read_le_u32(b, 140),
        tsr_snd_max: read_le_u32(b, 144),
        tsr_rcv_nxt: read_le_u32(b, 148),
        tsr_rcv_adv: read_le_u32(b, 152),
        tsr_snd_rexmitpack: read_le_u32(b, 156),
        tsr_rcv_ooopack: read_le_u32(b, 160),
        tsr_snd_zerowin: read_le_u32(b, 164),
        tsr_dupacks: read_le_u32(b, 168),
        tsr_rcv_numsacks: read_le_u32(b, 172),
        tsr_ecn: read_le_u32(b, 176),
        tsr_delivered_ce: read_le_u32(b, 180),
        tsr_received_ce: read_le_u32(b, 184),
        tsr_dsack_bytes: read_le_u32(b, 188),
        tsr_dsack_pack: read_le_u32(b, 192),
        tsr_total_tlp: read_le_u32(b, 196),
        tsr_total_tlp_bytes: read_le_u64(b, 200),
        tsr_tt_rexmt: read_le_i32(b, 208),
        tsr_tt_persist: read_le_i32(b, 212),
        tsr_tt_keep: read_le_i32(b, 216),
        tsr_tt_2msl: read_le_i32(b, 220),
        tsr_tt_delack: read_le_i32(b, 224),
        tsr_rcvtime: read_le_i32(b, 228),
        tsr_snd_buf_cc: read_le_u32(b, 232),
        tsr_snd_buf_hiwat: read_le_u32(b, 236),
        tsr_rcv_buf_cc: read_le_u32(b, 240),
        tsr_rcv_buf_hiwat: read_le_u32(b, 244),
        tsr_so_addr: read_le_u64(b, 248),
        tsr_uid: read_le_u32(b, 256),
        tsr_inp_gencnt: read_le_u64(b, 260),
        _tsr_spare: [read_le_u32(b, 268), read_le_u32(b, 272), read_le_u32(b, 276), read_le_u32(b, 280), read_le_u32(b, 284), read_le_u32(b, 288), read_le_u32(b, 292), read_le_u32(b, 296), read_le_u32(b, 300), read_le_u32(b, 304), read_le_u32(b, 308), read_le_u32(b, 312), read_le_u32(b, 316)],
    }
}

/// Response to the `TCPSTATS_VERSION_CMD` ioctl.
#[derive(Debug, Clone, Copy, Default)]
pub struct TcpstatsVersion {
    pub protocol_version: u32,
    pub record_size: u32,
    pub record_count_hint: u32,
    pub flags: u32,
}

// FreeBSD ioctl encoding (<sys/ioccom.h>):
//   _IOC(inout,group,num,len) = inout | ((len & IOCPARM_MASK) << 16) | (group << 8) | num
//   IOCPARM_MASK = 0x1FFF, IOC_OUT = 0x40000000, IOC_IN = 0x80000000, IOC_VOID = 0x20000000
//   _IOR(g,n,t) = _IOC(IOC_OUT, g, n, sizeof(t))
//   _IOW(g,n,t) = _IOC(IOC_IN, g, n, sizeof(t))
//   _IO(g,n)    = _IOC(IOC_VOID, g, n, 0)

pub const IOC_OUT: u64 = 0x4000_0000;
pub const IOC_IN: u64 = 0x8000_0000;
pub const IOC_VOID: u64 = 0x2000_0000;

/// The `_IOC` encoding of an ioctl command.
pub open spec fn ioc_spec(inout: u64, group: u8, num: u8, len: u64) -> u64 {
    inout | ((len & 0x1FFF) << 16u64) | ((group as u64) << 8u64) | (num as u64)
}

pub fn freebsd_ioc(inout: u64, group: u8, num: u8, len: usize) -> (cmd: u64)
    ensures
        cmd == ioc_spec(inout, group, num, len as u64),
{
    inout | (((len as u64) & 0x1FFF) << 16u64) | ((group as u64) << 8u64) | (num as u64)
}

pub fn freebsd_ior(group: u8, num: u8, len: usize) -> (cmd: u64)
    ensures
        cmd == ioc_spec(IOC_OUT, group, num, len as u64),
{
    freebsd_ioc(IOC_OUT, group, num, len)
}

pub fn freebsd_iow(group: u8, num: u8, len: usize) -> (cmd: u64)
    ensures
        cmd == ioc_spec(IOC_IN, group, num, len as u64),
{
    freebsd_ioc(IOC_IN, group, num, len)
}

pub fn freebsd_io(group: u8, num: u8) -> (cmd: u64)
    ensures
        cmd == ioc_spec(IOC_VOID, group, num, 0),
{
    freebsd_ioc(IOC_VOID, group, num, 0)
}

/// Size of `struct tcpstats_version` (four `u32`s).
pub const TCPSTATS_VERSION_SIZE: usize = 16;

/// Size the kernel module gives `struct tcpstats_filter` in its ioctl encoding.
pub const TCPSTATS_FILTER_SIZE: usize = 256;

/// `TCPSTATS_VERSION_CMD = _IOR('T', 1, struct tcpstats_version)`
pub const TCPSTATS_VERSION_CMD: u64 = 0x4010_5401;

/// `TCPSTATS_SET_FILTER = _IOW('T', 2, struct tcpstats_filter)`
pub const TCPSTATS_SET_FILTER: u64 = 0x8100_5402;

/// `TCPSTATS_RESET = _IO('T', 3)`
pub const TCPSTATS_RESET: u64 = 0x2000_5403;

/// The ioctl command numbers are the `_IOR`, `_IOW` and `_IO` encodings of
/// group `'T'` with numbers 1, 2, 3 and the sizes of the structures passed.
pub proof fn lemma_ioctl_commands()
    ensures
        TCPSTATS_VERSION_CMD == ioc_spec(IOC_OUT, 84u8, 1u8, TCPSTATS_VERSION_SIZE as u64),
        TCPSTATS_SET_FILTER == ioc_spec(IOC_IN, 84u8, 2u8, TCPSTATS_FILTER_SIZE as u64),
        TCPSTATS_RESET == ioc_spec(IOC_VOID, 84u8, 3u8, 0),
{
    assert(0x4010_5401u64 == (0x4000_0000u64 | ((16u64 & 0x1FFF) << 16u64) | ((84u8 as u64) << 8u64) | (1u8 as u64))) by (bit_vector);
    assert(0x8100_5402u64 == (0x8000_0000u64 | ((256u64 & 0x1FFF) << 16u64) | ((84u8 as u64) << 8u64) | (2u8 as u64))) by (bit_vector);
    assert(0x2000_5403u64 == (0x2000_0000u64 | ((0u64 & 0x1FFF) << 16u64) | ((84u8 as u64) << 8u64) | (3u8 as u64))) by (bit_vector);
}

/// FreeBSD `struct xfile` field type constant for sockets.
pub const DTYPE_SOCKET: u16 = 2;

/// The index of the first NUL byte of `b` at or after `i`, or `b.len()`.
pub open spec fn first_nul_from(b: Seq<u8>, i: int) -> int
    decreases b.len() - i,
{
    if i >= b.len() {
        b.len() as int
    } else if b[i] == 0 {
        i
    } else {
        first_nul_from(b, i + 1)
    }
}

/// The bytes of `b` before its first NUL (all of `b` if it has none).
pub open spec fn before_nul(b: Seq<u8>) -> Seq<u8> {
    b.take(first_nul_from(b, 0))
}

proof fn lemma_first_nul_bounds(b: Seq<u8>, i: int)
    requires
        0 <= i <= b.len(),
    ensures
        i <= first_nul_from(b, i) <= b.len(),
    decreases b.len() - i,
{
    if i < b.len() && b[i] != 0 {
        lemma_first_nul_bounds(b, i + 1);
    }
}

/// Extract a NUL-terminated string from a fixed-size byte array: the lossy
/// UTF-8 decoding of the bytes before the first NUL, which for valid UTF-8
/// is the text those bytes encode.
pub fn extract_nul_string(buf: &[u8]) -> (s: String)
    ensures
        s@ == utf8_lossy(before_nul(buf@)),
        valid_utf8(before_nul(buf@)) ==> s@ == decode_utf8(before_nul(buf@)),
        all_ascii(before_nul(buf@)) ==> s@ == ascii_chars(before_nul(buf@)),
{
    let mut end: usize = 0;
    while end < buf.len() && buf[end] != 0
        invariant
            end <= buf@.len(),
            first_nul_from(buf@, 0) == first_nul_from(buf@, end as int),
        decreases buf@.len() - end,
    {
        end = end + 1;
    }
    let prefix = &buf[0..end];
    assert(prefix@ == before_nul(buf@));
    from_utf8_lossy(prefix)
}

} // verus!
