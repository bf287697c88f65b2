//! Parser for the macOS `net.inet.tcp.pcblist_n` tagged record stream.
//!
//! The buffer starts with a `struct xinpgen` header. It is followed by tagged
//! records, each with an 8-byte header (`u32` length including the header,
//! `u32` kind) and padded to a multiple of 8 bytes. A socket's records start
//! with its `xsocket_n` record; the receive/send buffer, `inpcb` and `tcpcb`
//! records that follow belong to the same socket. A record of length or kind
//! 0 (the trailing `xinpgen`) ends the stream.

use vstd::prelude::*;
use crate::bytes::{
    be_u16, le_i32, le_u32, le_u64, read_be_u16, read_le_i32, read_le_u32, read_le_u64,
};
use crate::platform::macos_layout::{
    roundup64, spec_roundup64, INP_IPV4, INP_IPV6, TAG_HEADER_SIZE, TAG_KIND_OFFSET,
    TAG_LEN_OFFSET, TCP_RTTVAR_SHIFT, TCP_RTT_SHIFT, XINPCB_N_IN6P_FADDR_OFFSET,
    XINPCB_N_IN6P_LADDR_OFFSET, XINPCB_N_INP_FADDR_OFFSET, XINPCB_N_INP_FPORT_OFFSET,
    XINPCB_N_INP_GENCNT_OFFSET, XINPCB_N_INP_LADDR_OFFSET, XINPCB_N_INP_LPORT_OFFSET,
    XINPCB_N_INP_VFLAG_OFFSET, XINPGEN_LEN_OFFSET, XSOCKBUF_N_CC_OFFSET,
    XSOCKBUF_N_HIWAT_OFFSET, XSOCKET_N_SO_E_PID_OFFSET, XSOCKET_N_SO_LAST_PID_OFFSET,
    XSOCKET_N_SO_PCB_OFFSET, XSOCKET_N_SO_UID_OFFSET, XSO_INPCB, XSO_RCVBUF, XSO_SNDBUF,
    XSO_SOCKET, XSO_STATS, XSO_TCPCB, XTCPCB_N_RCV_ADV_OFFSET, XTCPCB_N_RCV_NXT_OFFSET,
    XTCPCB_N_RCV_WND_OFFSET, XTCPCB_N_RCV_WSCALE_OFFSET, XTCPCB_N_SND_CWND_OFFSET,
    XTCPCB_N_SND_MAX_OFFSET, XTCPCB_N_SND_NXT_OFFSET, XTCPCB_N_SND_SSTHRESH_OFFSET,
    XTCPCB_N_SND_UNA_OFFSET, XTCPCB_N_SND_WND_OFFSET, XTCPCB_N_SND_WSCALE_OFFSET,
    XTCPCB_N_T_DUPACKS_OFFSET, XTCPCB_N_T_FLAGS_OFFSET, XTCPCB_N_T_MAXSEG_OFFSET,
    XTCPCB_N_T_RTTVAR_OFFSET, XTCPCB_N_T_RXTCUR_OFFSET, XTCPCB_N_T_RXTSHIFT_OFFSET,
    XTCPCB_N_T_SRTT_OFFSET, XTCPCB_N_T_STARTTIME_OFFSET, XTCPCB_N_T_STATE_OFFSET,
};
use crate::platform::{CollectError, CollectionResult};
use crate::clock::elapsed_ns;
use std::time::Instant;
use crate::text::{decimal, push_decimal};
use crate::record::{empty_record_view, record_views, IpAddr, RawSocketRecord, RecordView};

verus! {

// --- Byte-reading helpers ---

fn read_u8_at(buf: &[u8], offset: usize) -> (r: Result<u8, CollectError>)
    ensures
        offset < buf@.len() ==> r == Ok::<u8, CollectError>(buf@[offset as int]),
        offset >= buf@.len() ==> (r matches Err(CollectError::Truncated { offset: o, need, have })
            && o == offset && need == 1 && have == buf@.len()),
{
    if offset < buf.len() {
        Ok(buf[offset])
    } else {
        Err(CollectError::Truncated { offset, need: 1, have: buf.len() })
    }
}

fn read_u16_be_at(buf: &[u8], offset: usize) -> (r: Result<u16, CollectError>)
    ensures
        offset + 2 <= buf@.len() ==> r == Ok::<u16, CollectError>(be_u16(buf@, offset as int)),
        offset + 2 > buf@.len() ==> (r matches Err(CollectError::Truncated { offset: o, need, have })
            && o == offset && need == 2 && have == buf@.len()),
{
    if offset > buf.len() || buf.len() - offset < 2 {
        return Err(CollectError::Truncated { offset, need: 2, have: buf.len() });
    }
    Ok(read_be_u16(buf, offset))
}

fn read_i32_at(buf: &[u8], offset: usize) -> (r: Result<i32, CollectError>)
    ensures
        offset + 4 <= buf@.len() ==> r == Ok::<i32, CollectError>(le_i32(buf@, offset as int)),
        offset + 4 > buf@.len() ==> (r matches Err(CollectError::Truncated { offset: o, need, have })
            && o == offset && need == 4 && have == buf@.len()),
{
    if offset > buf.len() || buf.len() - offset < 4 {
        return Err(CollectError::Truncated { offset, need: 4, have: buf.len() });
    }
    Ok(read_le_i32(buf, offset))
}

fn read_u32_at(buf: &[u8], offset: usize) -> (r: Result<u32, CollectError>)
    ensures
        offset + 4 <= buf@.len() ==> r == Ok::<u32, CollectError>(le_u32(buf@, offset as int)),
        offset + 4 > buf@.len() ==> (r matches Err(CollectError::Truncated { offset: o, need, have })
            && o == offset && need == 4 && have == buf@.len()),
{
    if offset > buf.len() || buf.len() - offset < 4 {
        return Err(CollectError::Truncated { offset, need: 4, have: buf.len() });
    }
    Ok(read_le_u32(buf, offset))
}

fn read_u64_at(buf: &[u8], offset: usize) -> (r: Result<u64, CollectError>)
    ensures
        offset + 8 <= buf@.len() ==> r == Ok::<u64, CollectError>(le_u64(buf@, offset as int)),
        offset + 8 > buf@.len() ==> (r matches Err(CollectError::Truncated { offset: o, need, have })
            && o == offset && need == 8 && have == buf@.len()),
{
    if offset > buf.len() || buf.len() - offset < 8 {
        return Err(CollectError::Truncated { offset, need: 8, have: buf.len() });
    }
    Ok(read_le_u64(buf, offset))
}

// --- What each record kind contributes to the socket's record ---

/// Fields taken from an `xsocket_n` body: kernel socket id, uid, last and
/// effective pid, each when the body extends past it.
#[verifier::opaque]
pub open spec fn xsocket_fields(r: RecordView, body: Seq<u8>) -> RecordView {
    RecordView {
        socket_id: if body.len() > XSOCKET_N_SO_PCB_OFFSET + 8 {
            Some(le_u64(body, XSOCKET_N_SO_PCB_OFFSET as int))
        } else {
            r.socket_id
        },
        uid: if body.len() > XSOCKET_N_SO_UID_OFFSET + 4 {
            Some(le_u32(body, XSOCKET_N_SO_UID_OFFSET as int))
        } else {
            r.uid
        },
        pid: if body.len() > XSOCKET_N_SO_LAST_PID_OFFSET + 4 {
            Some(le_i32(body, XSOCKET_N_SO_LAST_PID_OFFSET as int))
        } else {
            r.pid
        },
        effective_pid: if body.len() > XSOCKET_N_SO_E_PID_OFFSET + 4 {
            Some(le_i32(body, XSOCKET_N_SO_E_PID_OFFSET as int))
        } else {
            r.effective_pid
        },
        ..r
    }
}

/// Fields taken from the receive buffer's `xsockbuf_n` body.
#[verifier::opaque]
pub open spec fn rcvbuf_fields(r: RecordView, body: Seq<u8>) -> RecordView {
    RecordView {
        rcv_buf_used: if body.len() > XSOCKBUF_N_CC_OFFSET + 4 {
            Some(le_u32(body, XSOCKBUF_N_CC_OFFSET as int))
        } else {
            r.rcv_buf_used
        },
        rcv_buf_hiwat: if body.len() > XSOCKBUF_N_HIWAT_OFFSET + 4 {
            Some(le_u32(body, XSOCKBUF_N_HIWAT_OFFSET as int))
        } else {
            r.rcv_buf_hiwat
        },
        ..r
    }
}

/// Fields taken from the send buffer's `xsockbuf_n` body.
#[verifier::opaque]
pub open spec fn sndbuf_fields(r: RecordView, body: Seq<u8>) -> RecordView {
    RecordView {
        snd_buf_used: if body.len() > XSOCKBUF_N_CC_OFFSET + 4 {
            Some(le_u32(body, XSOCKBUF_N_CC_OFFSET as int))
        } else {
            r.snd_buf_used
        },
        snd_buf_hiwat: if body.len() > XSOCKBUF_N_HIWAT_OFFSET + 4 {
            Some(le_u32(body, XSOCKBUF_N_HIWAT_OFFSET as int))
        } else {
            r.snd_buf_hiwat
        },
        ..r
    }
}

/// The IPv4 address in the 4 bytes at `off`.
pub open spec fn v4_at(b: Seq<u8>, off: int) -> IpAddr {
    IpAddr::V4([b[off], b[off + 1], b[off + 2], b[off + 3]])
}

/// The IPv6 address in the 16 bytes at `off`.
pub open spec fn v6_at(b: Seq<u8>, off: int) -> IpAddr {
    IpAddr::V6(
        [
            b[off],
            b[off + 1],
            b[off + 2],
            b[off + 3],
            b[off + 4],
            b[off + 5],
            b[off + 6],
            b[off + 7],
            b[off + 8],
            b[off + 9],
            b[off + 10],
            b[off + 11],
            b[off + 12],
            b[off + 13],
            b[off + 14],
            b[off + 15],
        ],
    )
}

/// Address family and addresses from an `xinpcb_n` body, chosen by
/// `inp_vflag` (IPv6 wins when both flags are set; neither flag leaves them).
pub open spec fn inpcb_addr_fields(r: RecordView, body: Seq<u8>) -> RecordView {
    let vflag = body[XINPCB_N_INP_VFLAG_OFFSET as int];
    if vflag & INP_IPV6 != 0 {
        RecordView {
            ip_version: Some(6u8),
            local_addr: if body.len() > XINPCB_N_IN6P_LADDR_OFFSET + 16 {
                Some(v6_at(body, XINPCB_N_IN6P_LADDR_OFFSET as int))
            } else {
                r.local_addr
            },
            remote_addr: if body.len() > XINPCB_N_IN6P_FADDR_OFFSET + 16 {
                Some(v6_at(body, XINPCB_N_IN6P_FADDR_OFFSET as int))
            } else {
                r.remote_addr
            },
            ..r
        }
    } else if vflag & INP_IPV4 != 0 {
        RecordView {
            ip_version: Some(4u8),
            local_addr: if body.len() > XINPCB_N_INP_LADDR_OFFSET + 4 {
                Some(v4_at(body, XINPCB_N_INP_LADDR_OFFSET as int))
            } else {
                r.local_addr
            },
            remote_addr: if body.len() > XINPCB_N_INP_FADDR_OFFSET + 4 {
                Some(v4_at(body, XINPCB_N_INP_FADDR_OFFSET as int))
            } else {
                r.remote_addr
            },
            ..r
        }
    } else {
        r
    }
}

/// Fields taken from an `xinpcb_n` body: nothing unless the body reaches
/// past `inp_vflag`; then addresses, ports (network byte order) and
/// `inp_gencnt`.
#[verifier::opaque]
pub open spec fn xinpcb_fields(r: RecordView, body: Seq<u8>) -> RecordView {
    if body.len() <= XINPCB_N_INP_VFLAG_OFFSET {
        r
    } else {
        let a = inpcb_addr_fields(r, body);
        RecordView {
            local_port: if body.len() > XINPCB_N_INP_LPORT_OFFSET + 2 {
                Some(be_u16(body, XINPCB_N_INP_LPORT_OFFSET as int))
            } else {
                a.local_port
            },
            remote_port: if body.len() > XINPCB_N_INP_FPORT_OFFSET + 2 {
                Some(be_u16(body, XINPCB_N_INP_FPORT_OFFSET as int))
            } else {
                a.remote_port
            },
            inp_gencnt: if body.len() > XINPCB_N_INP_GENCNT_OFFSET + 8 {
                Some(le_u64(body, XINPCB_N_INP_GENCNT_OFFSET as int))
            } else {
                a.inp_gencnt
            },
            ..a
        }
    }
}

/// `ticks` clock ticks in microseconds at `hz` ticks per second, truncated
/// to 32 bits.
pub open spec fn ticks_to_us(ticks: u32, hz: i32) -> u32 {
    ((ticks as int * 1_000_000) / (hz as int)) as u32
}

/// The `u32` at `off` if the body extends past it, else `old`.
pub open spec fn u32_field(body: Seq<u8>, off: usize, old: Option<u32>) -> Option<u32> {
    if body.len() > off + 4 {
        Some(le_u32(body, off as int))
    } else {
        old
    }
}

/// Fields taken from an `xtcpcb_n` body. RTT, RTT variance and RTO are
/// converted from ticks to microseconds and need `hz > 0`; the smoothed RTT
/// is stored shifted left by `TCP_RTT_SHIFT`, the variance by
/// `TCP_RTTVAR_SHIFT`.
#[verifier::opaque]
pub open spec fn xtcpcb_fields(r: RecordView, body: Seq<u8>, hz: i32) -> RecordView {
    RecordView {
        state: if body.len() > XTCPCB_N_T_STATE_OFFSET + 4 {
            Some(le_i32(body, XTCPCB_N_T_STATE_OFFSET as int))
        } else {
            r.state
        },
        rxt_shift: u32_field(body, XTCPCB_N_T_RXTSHIFT_OFFSET, r.rxt_shift),
        tcp_flags: u32_field(body, XTCPCB_N_T_FLAGS_OFFSET, r.tcp_flags),
        snd_cwnd: u32_field(body, XTCPCB_N_SND_CWND_OFFSET, r.snd_cwnd),
        snd_ssthresh: u32_field(body, XTCPCB_N_SND_SSTHRESH_OFFSET, r.snd_ssthresh),
        maxseg: u32_field(body, XTCPCB_N_T_MAXSEG_OFFSET, r.maxseg),
        rtt_us: if body.len() > XTCPCB_N_T_SRTT_OFFSET + 4 && hz > 0 {
            Some(ticks_to_us(le_u32(body, XTCPCB_N_T_SRTT_OFFSET as int) >> TCP_RTT_SHIFT, hz))
        } else {
            r.rtt_us
        },
        rttvar_us: if body.len() > XTCPCB_N_T_RTTVAR_OFFSET + 4 && hz > 0 {
            Some(
                ticks_to_us(le_u32(body, XTCPCB_N_T_RTTVAR_OFFSET as int) >> TCP_RTTVAR_SHIFT, hz),
            )
        } else {
            r.rttvar_us
        },
        rto_us: if body.len() > XTCPCB_N_T_RXTCUR_OFFSET + 4 && hz > 0 {
            Some(ticks_to_us(le_u32(body, XTCPCB_N_T_RXTCUR_OFFSET as int), hz))
        } else {
            r.rto_us
        },
        snd_nxt: u32_field(body, XTCPCB_N_SND_NXT_OFFSET, r.snd_nxt),
        snd_una: u32_field(body, XTCPCB_N_SND_UNA_OFFSET, r.snd_una),
        snd_max: u32_field(body, XTCPCB_N_SND_MAX_OFFSET, r.snd_max),
        rcv_nxt: u32_field(body, XTCPCB_N_RCV_NXT_OFFSET, r.rcv_nxt),
        rcv_adv: u32_field(body, XTCPCB_N_RCV_ADV_OFFSET, r.rcv_adv),
        snd_wnd: u32_field(body, XTCPCB_N_SND_WND_OFFSET, r.snd_wnd),
        rcv_wnd: u32_field(body, XTCPCB_N_RCV_WND_OFFSET, r.rcv_wnd),
        snd_wscale: if body.len() > XTCPCB_N_SND_WSCALE_OFFSET {
            Some(body[XTCPCB_N_SND_WSCALE_OFFSET as int] as u32)
        } else {
            r.snd_wscale
        },
        rcv_wscale: if body.len() > XTCPCB_N_RCV_WSCALE_OFFSET {
            Some(body[XTCPCB_N_RCV_WSCALE_OFFSET as int] as u32)
        } else {
            r.rcv_wscale
        },
        dupacks: u32_field(body, XTCPCB_N_T_DUPACKS_OFFSET, r.dupacks),
        start_time_secs: u32_field(body, XTCPCB_N_T_STARTTIME_OFFSET, r.start_time_secs),
        ..r
    }
}

/// The data source tag of `pcblist_n` records (`DataSource::MacosPcblistN`).
pub const DATA_SOURCE_MACOS_PCBLIST_N: u8 = 1;

/// The sysctl holding the socket list.
pub const PCBLIST_SYSCTL: &'static str = "net.inet.tcp.pcblist_n";

/// Re-reads allowed when the socket list changes during a read.
pub const MAX_RETRIES: u32 = 3;

/// The records a finished socket group contributes: its record tagged as
/// coming from `pcblist_n`, or nothing when no `xsocket_n` record opened it.
pub open spec fn emitted(rec: RecordView, has_socket: bool) -> Seq<RecordView> {
    if has_socket {
        seq![RecordView { sources: seq![DATA_SOURCE_MACOS_PCBLIST_N], ..rec }]
    } else {
        Seq::empty()
    }
}

/// Accumulates fields from tagged records for one connection.
struct ConnectionAccumulator {
    rec: RawSocketRecord,
    has_socket: bool,
}

impl ConnectionAccumulator {
    fn new() -> (acc: ConnectionAccumulator)
        ensures
            acc.rec@ == empty_record_view(),
            !acc.has_socket,
    {
        ConnectionAccumulator { rec: RawSocketRecord::empty(), has_socket: false }
    }

    fn parse_xsocket_n(&mut self, body: &[u8]) -> (r: Result<(), CollectError>)
        ensures
            r is Ok,
            final(self).has_socket,
            final(self).rec@ == xsocket_fields(old(self).rec@, body@),
    {
        reveal(xsocket_fields);
        self.has_socket = true;
        if body.len() > XSOCKET_N_SO_PCB_OFFSET + 8 {
            self.rec.socket_id = Some(read_u64_at(body, XSOCKET_N_SO_PCB_OFFSET)?);
        }
        if body.len() > XSOCKET_N_SO_UID_OFFSET + 4 {
            self.rec.uid = Some(read_u32_at(body, XSOCKET_N_SO_UID_OFFSET)?);
        }
        if body.len() > XSOCKET_N_SO_LAST_PID_OFFSET + 4 {
            self.rec.pid = Some(read_i32_at(body, XSOCKET_N_SO_LAST_PID_OFFSET)?);
        }
        if body.len() > XSOCKET_N_SO_E_PID_OFFSET + 4 {
            self.rec.effective_pid = Some(read_i32_at(body, XSOCKET_N_SO_E_PID_OFFSET)?);
        }
        Ok(())
    }

    fn parse_rcvbuf(&mut self, body: &[u8]) -> (r: Result<(), CollectError>)
        ensures
            r is Ok,
            final(self).has_socket == old(self).has_socket,
            final(self).rec@ == rcvbuf_fields(old(self).rec@, body@),
    {
        reveal(rcvbuf_fields);
        if body.len() > XSOCKBUF_N_CC_OFFSET + 4 {
            self.rec.rcv_buf_used = Some(read_u32_at(body, XSOCKBUF_N_CC_OFFSET)?);
        }
        if body.len() > XSOCKBUF_N_HIWAT_OFFSET + 4 {
            self.rec.rcv_buf_hiwat = Some(read_u32_at(body, XSOCKBUF_N_HIWAT_OFFSET)?);
        }
        Ok(())
    }

    fn parse_sndbuf(&mut self, body: &[u8]) -> (r: Result<(), CollectError>)
        ensures
            r is Ok,
            final(self).has_socket == old(self).has_socket,
            final(self).rec@ == sndbuf_fields(old(self).rec@, body@),
    {
        reveal(sndbuf_fields);
        if body.len() > XSOCKBUF_N_CC_OFFSET + 4 {
            self.rec.snd_buf_used = Some(read_u32_at(body, XSOCKBUF_N_CC_OFFSET)?);
        }
        if body.len() > XSOCKBUF_N_HIWAT_OFFSET + 4 {
            self.rec.snd_buf_hiwat = Some(read_u32_at(body, XSOCKBUF_N_HIWAT_OFFSET)?);
        }
        Ok(())
    }

    fn parse_xinpcb_n(&mut self, body: &[u8]) -> (r: Result<(), CollectError>)
        ensures
            r is Ok,
            final(self).has_socket == old(self).has_socket,
            final(self).rec@ == xinpcb_fields(old(self).rec@, body@),
    {
        reveal(xinpcb_fields);
        // Read vflag to determine IP version
        if body.len() <= XINPCB_N_INP_VFLAG_OFFSET {
            return Ok(());
        }
        let vflag = read_u8_at(body, XINPCB_N_INP_VFLAG_OFFSET)?;

        if vflag & INP_IPV6 != 0 {
            self.rec.ip_version = Some(6);
            // IPv6 addresses (16 bytes each)
            if body.len() > XINPCB_N_IN6P_LADDR_OFFSET + 16 {
                self.rec.local_addr = Some(ipv6_at(body, XINPCB_N_IN6P_LADDR_OFFSET));
            }
            if body.len() > XINPCB_N_IN6P_FADDR_OFFSET + 16 {
                self.rec.remote_addr = Some(ipv6_at(body, XINPCB_N_IN6P_FADDR_OFFSET));
            }
        } else if vflag & INP_IPV4 != 0 {
            self.rec.ip_version = Some(4);
            // IPv4 addresses (4 bytes each)
            if body.len() > XINPCB_N_INP_LADDR_OFFSET + 4 {
                self.rec.local_addr = Some(ipv4_at(body, XINPCB_N_INP_LADDR_OFFSET));
            }
            if body.len() > XINPCB_N_INP_FADDR_OFFSET + 4 {
                self.rec.remote_addr = Some(ipv4_at(body, XINPCB_N_INP_FADDR_OFFSET));
            }
        }
        // Ports (network byte order)
        if body.len() > XINPCB_N_INP_LPORT_OFFSET + 2 {
            self.rec.local_port = Some(read_u16_be_at(body, XINPCB_N_INP_LPORT_OFFSET)?);
        }
        if body.len() > XINPCB_N_INP_FPORT_OFFSET + 2 {
            self.rec.remote_port = Some(read_u16_be_at(body, XINPCB_N_INP_FPORT_OFFSET)?);
        }
        // inp_gencnt
        if body.len() > XINPCB_N_INP_GENCNT_OFFSET + 8 {
            self.rec.inp_gencnt = Some(read_u64_at(body, XINPCB_N_INP_GENCNT_OFFSET)?);
        }
        Ok(())
    }

    fn parse_xtcpcb_n(&mut self, body: &[u8], hz: i32) -> (r: Result<(), CollectError>)
        ensures
            r is Ok,
            final(self).has_socket == old(self).has_socket,
            final(self).rec@ == xtcpcb_fields(old(self).rec@, body@, hz),
    {
        reveal(xtcpcb_fields);
        if body.len() > XTCPCB_N_T_STATE_OFFSET + 4 {
            self.rec.state = Some(read_i32_at(body, XTCPCB_N_T_STATE_OFFSET)?);
        }
        if body.len() > XTCPCB_N_T_RXTSHIFT_OFFSET + 4 {
            self.rec.rxt_shift = Some(read_u32_at(body, XTCPCB_N_T_RXTSHIFT_OFFSET)?);
        }
        if body.len() > XTCPCB_N_T_FLAGS_OFFSET + 4 {
            self.rec.tcp_flags = Some(read_u32_at(body, XTCPCB_N_T_FLAGS_OFFSET)?);
        }
        if body.len() > XTCPCB_N_SND_CWND_OFFSET + 4 {
            self.rec.snd_cwnd = Some(read_u32_at(body, XTCPCB_N_SND_CWND_OFFSET)?);
        }
        if body.len() > XTCPCB_N_SND_SSTHRESH_OFFSET + 4 {
            self.rec.snd_ssthresh = Some(read_u32_at(body, XTCPCB_N_SND_SSTHRESH_OFFSET)?);
        }
        if body.len() > XTCPCB_N_T_MAXSEG_OFFSET + 4 {
            self.rec.maxseg = Some(read_u32_at(body, XTCPCB_N_T_MAXSEG_OFFSET)?);
        }
        // RTT: t_srtt is stored as (srtt << TCP_RTT_SHIFT) in ticks
        // Convert: ((t_srtt >> TCP_RTT_SHIFT) * 1_000_000) / hz
        if body.len() > XTCPCB_N_T_SRTT_OFFSET + 4 && hz > 0 {
            let raw_srtt = read_u32_at(body, XTCPCB_N_T_SRTT_OFFSET)?;
            let ticks = raw_srtt >> TCP_RTT_SHIFT;
            self.rec.rtt_us = Some(ticks_to_micros(ticks, hz));
        }
        if body.len() > XTCPCB_N_T_RTTVAR_OFFSET + 4 && hz > 0 {
            let raw_rttvar = read_u32_at(body, XTCPCB_N_T_RTTVAR_OFFSET)?;
            let ticks = raw_rttvar >> TCP_RTTVAR_SHIFT;
            self.rec.rttvar_us = Some(ticks_to_micros(ticks, hz));
        }
        // RTO (raw ticks)
        if body.len() > XTCPCB_N_T_RXTCUR_OFFSET + 4 && hz > 0 {
            let raw_rto = read_u32_at(body, XTCPCB_N_T_RXTCUR_OFFSET)?;
            self.rec.rto_us = Some(ticks_to_micros(raw_rto, hz));
        }
        // Sequence numbers
        if body.len() > XTCPCB_N_SND_NXT_OFFSET + 4 {
            self.rec.snd_nxt = Some(read_u32_at(body, XTCPCB_N_SND_NXT_OFFSET)?);
        }
        if body.len() > XTCPCB_N_SND_UNA_OFFSET + 4 {
            self.rec.snd_una = Some(read_u32_at(body, XTCPCB_N_SND_UNA_OFFSET)?);
        }
        if body.len() > XTCPCB_N_SND_MAX_OFFSET + 4 {
            self.rec.snd_max = Some(read_u32_at(body, XTCPCB_N_SND_MAX_OFFSET)?);
        }
        if body.len() > XTCPCB_N_RCV_NXT_OFFSET + 4 {
            self.rec.rcv_nxt = Some(read_u32_at(body, XTCPCB_N_RCV_NXT_OFFSET)?);
        }
        if body.len() > XTCPCB_N_RCV_ADV_OFFSET + 4 {
            self.rec.rcv_adv = Some(read_u32_at(body, XTCPCB_N_RCV_ADV_OFFSET)?);
        }
        // Windows
        if body.len() > XTCPCB_N_SND_WND_OFFSET + 4 {
            self.rec.snd_wnd = Some(read_u32_at(body, XTCPCB_N_SND_WND_OFFSET)?);
        }
        if body.len() > XTCPCB_N_RCV_WND_OFFSET + 4 {
            self.rec.rcv_wnd = Some(read_u32_at(body, XTCPCB_N_RCV_WND_OFFSET)?);
        }
        // Window scale (single bytes)
        if body.len() > XTCPCB_N_SND_WSCALE_OFFSET {
            self.rec.snd_wscale = Some(read_u8_at(body, XTCPCB_N_SND_WSCALE_OFFSET)? as u32);
        }
        if body.len() > XTCPCB_N_RCV_WSCALE_OFFSET {
            self.rec.rcv_wscale = Some(read_u8_at(body, XTCPCB_N_RCV_WSCALE_OFFSET)? as u32);
        }
        // Dupacks
        if body.len() > XTCPCB_N_T_DUPACKS_OFFSET + 4 {
            self.rec.dupacks = Some(read_u32_at(body, XTCPCB_N_T_DUPACKS_OFFSET)?);
        }
        // Start time
        if body.len() > XTCPCB_N_T_STARTTIME_OFFSET + 4 {
            self.rec.start_time_secs = Some(read_u32_at(body, XTCPCB_N_T_STARTTIME_OFFSET)?);
        }
        Ok(())
    }

    /// The finished socket record, tagged with its data source; `None` when
    /// no `xsocket_n` record opened the group.
    fn build(self) -> (r: Option<RawSocketRecord>)
        ensures
            match r {
                Some(rec) => emitted(self.rec@, self.has_socket) == seq![rec@],
                None => emitted(self.rec@, self.has_socket) == Seq::<RecordView>::empty(),
            },
    {
        if !self.has_socket {
            return None;
        }
        let mut rec = self.rec;
        // Tag data source as macOS pcblist_n (DataSource::MacosPcblistN = 1)
        rec.sources = vec![DATA_SOURCE_MACOS_PCBLIST_N];
        assert(rec.sources@ =~= seq![DATA_SOURCE_MACOS_PCBLIST_N]);
        assert(rec@ == RecordView { sources: seq![DATA_SOURCE_MACOS_PCBLIST_N], ..self.rec@ });
        Some(rec)
    }
}

fn ticks_to_micros(ticks: u32, hz: i32) -> (us: u32)
    requires
        hz > 0,
    ensures
        us == ticks_to_us(ticks, hz),
{
    (ticks as u64 * 1_000_000 / hz as u64) as u32
}

fn ipv4_at(b: &[u8], off: usize) -> (a: IpAddr)
    requires
        off + 4 <= b@.len(),
    ensures
        a == v4_at(b@, off as int),
{
    IpAddr::V4([b[off], b[off + 1], b[off + 2], b[off + 3]])
}

fn ipv6_at(b: &[u8], off: usize) -> (a: IpAddr)
    requires
        off + 16 <= b@.len(),
    ensures
        a == v6_at(b@, off as int),
{
    IpAddr::V6(
        [
            b[off],
            b[off + 1],
            b[off + 2],
            b[off + 3],
            b[off + 4],
            b[off + 5],
            b[off + 6],
            b[off + 7],
            b[off + 8],
            b[off + 9],
            b[off + 10],
            b[off + 11],
            b[off + 12],
            b[off + 13],
            b[off + 14],
            b[off + 15],
        ],
    )
}

// --- The record stream ---

/// The accumulated socket after one tagged record of kind `kind`: an
/// `xsocket_n` record starts a new socket; the buffer, `inpcb` and `tcpcb`
/// records add to the current one; statistics and unknown kinds are skipped.
pub open spec fn apply_record(
    rec: RecordView,
    has_socket: bool,
    kind: u32,
    body: Seq<u8>,
    hz: i32,
) -> (RecordView, bool) {
    if kind == XSO_SOCKET {
        (xsocket_fields(empty_record_view(), body), true)
    } else if kind == XSO_RCVBUF {
        (rcvbuf_fields(rec, body), has_socket)
    } else if kind == XSO_SNDBUF {
        (sndbuf_fields(rec, body), has_socket)
    } else if kind == XSO_INPCB {
        (xinpcb_fields(rec, body), has_socket)
    } else if kind == XSO_TCPCB {
        (xtcpcb_fields(rec, body, hz), has_socket)
    } else {
        (rec, has_socket)
    }
}

/// `pre` followed by the records of `rest`; errors pass through.
pub open spec fn prefixed(
    pre: Seq<RecordView>,
    rest: Result<Seq<RecordView>, CollectError>,
) -> Result<Seq<RecordView>, CollectError> {
    match rest {
        Ok(s) => Ok(pre + s),
        Err(e) => Err(e),
    }
}

/// The records of the tagged stream starting at `pos`, given the socket
/// accumulated so far. The stream ends where no full tag header remains or
/// at a record of length or kind 0; a record reaching past the buffer is a
/// `Truncated` error.
pub open spec fn walk(
    buf: Seq<u8>,
    pos: int,
    rec: RecordView,
    has_socket: bool,
    hz: i32,
) -> Result<Seq<RecordView>, CollectError>
    decreases buf.len() + 8 - pos,
{
    if pos < 0 || pos + 8 > buf.len() {
        Ok(emitted(rec, has_socket))
    } else {
        let len = le_u32(buf, pos) as int;
        let kind = le_u32(buf, pos + 4);
        if len == 0 || kind == 0 {
            Ok(emitted(rec, has_socket))
        } else if pos + len > buf.len() {
            Err(
                CollectError::Truncated {
                    offset: pos as usize,
                    need: len as usize,
                    have: (buf.len() - pos) as usize,
                },
            )
        } else {
            let body = buf.subrange(pos + 8, pos + len);
            let out = if kind == XSO_SOCKET {
                emitted(rec, has_socket)
            } else {
                Seq::empty()
            };
            let next = apply_record(rec, has_socket, kind, body, hz);
            prefixed(out, walk(buf, pos + spec_roundup64(len), next.0, next.1, hz))
        }
    }
}

/// Every record in the stream from `pos` that is walked over is at least as
/// long as its own tag header.
pub open spec fn tags_well_formed(buf: Seq<u8>, pos: int) -> bool
    decreases buf.len() + 8 - pos,
{
    if pos < 0 || pos + 8 > buf.len() {
        true
    } else {
        let len = le_u32(buf, pos) as int;
        let kind = le_u32(buf, pos + 4);
        if len == 0 || kind == 0 || pos + len > buf.len() {
            true
        } else {
            len >= 8 && tags_well_formed(buf, pos + spec_roundup64(len))
        }
    }
}

/// The header length recorded in the `xinpgen` header.
pub open spec fn xinpgen_len(buf: Seq<u8>) -> u32 {
    le_u32(buf, XINPGEN_LEN_OFFSET as int)
}

/// The buffer is accepted by the header checks.
pub open spec fn header_ok(buf: Seq<u8>) -> bool {
    buf.len() >= 4 && xinpgen_len(buf) != 0 && xinpgen_len(buf) <= buf.len()
}

/// No record of the stream is shorter than its tag header (such a record
/// cannot be sliced into a body).
pub open spec fn pcblist_well_formed(buf: Seq<u8>) -> bool {
    header_ok(buf) ==> tags_well_formed(buf, spec_roundup64(xinpgen_len(buf) as int))
}

/// The records of a whole `pcblist_n` buffer whose header is accepted.
pub open spec fn pcblist_records(buf: Seq<u8>, hz: i32) -> Result<Seq<RecordView>, CollectError> {
    walk(buf, spec_roundup64(xinpgen_len(buf) as int), empty_record_view(), false, hz)
}

proof fn lemma_prefixed_assoc(a: Seq<RecordView>, b: Seq<RecordView>, r: Result<Seq<RecordView>, CollectError>)
    ensures
        prefixed(a, prefixed(b, r)) == prefixed(a + b, r),
{
    if let Ok(s) = r {
        assert(a + (b + s) =~= (a + b) + s);
    }
}

/// Applies one tagged record to the accumulated socket; an `xsocket_n`
/// record first moves the finished socket (if any) to `records`.
fn apply_tagged_record(
    acc: &mut ConnectionAccumulator,
    records: &mut Vec<RawSocketRecord>,
    kind: u32,
    body: &[u8],
    hz: i32,
)
    ensures
        (final(acc).rec@, final(acc).has_socket) == apply_record(
            old(acc).rec@,
            old(acc).has_socket,
            kind,
            body@,
            hz,
        ),
        record_views(final(records)@) == record_views(old(records)@) + (if kind == XSO_SOCKET {
            emitted(old(acc).rec@, old(acc).has_socket)
        } else {
            Seq::<RecordView>::empty()
        }),
{
    let ghost old_records = record_views(records@);
    if kind == XSO_SOCKET {
        // New xsocket_n = new connection group. Emit previous if complete.
        let mut finished = ConnectionAccumulator::new();
        std::mem::swap(acc, &mut finished);
        let ghost fin_rec = finished.rec@;
        let ghost fin_has = finished.has_socket;
        if let Some(rec) = finished.build() {
            records.push(rec);
        }
        assert(record_views(records@) =~= old_records + emitted(fin_rec, fin_has));
        let _ = acc.parse_xsocket_n(body);
    } else {
        assert(record_views(records@) =~= old_records + Seq::<RecordView>::empty());
        if kind == XSO_RCVBUF {
            let _ = acc.parse_rcvbuf(body);
        } else if kind == XSO_SNDBUF {
            let _ = acc.parse_sndbuf(body);
        } else if kind == XSO_STATS {
            // stats record: skipped
        } else if kind == XSO_INPCB {
            let _ = acc.parse_xinpcb_n(body);
        } else if kind == XSO_TCPCB {
            let _ = acc.parse_xtcpcb_n(body, hz);
        }
        // Unknown kinds are skipped for forward compatibility
    }
}

/// Parse the raw pcblist_n buffer into a list of `RawSocketRecord`.
///
/// A buffer shorter than 4 bytes is `Truncated`; a header length of 0 or
/// beyond the buffer is a `Parse` error; otherwise the result is the walk of
/// the tagged stream that follows the 8-aligned header.
pub fn parse_pcblist_n(buf: &[u8], hz: i32) -> (r: Result<Vec<RawSocketRecord>, CollectError>)
    requires
        buf@.len() <= isize::MAX,
        pcblist_well_formed(buf@),
    ensures
        buf@.len() < 4 ==> (r matches Err(CollectError::Truncated { offset, need, have })
            && offset == 0 && need == 4 && have == buf@.len()),
        buf@.len() >= 4 && !header_ok(buf@) ==> (r matches Err(CollectError::Parse { offset, message })
            && offset == 0 && message@ == "invalid header length: "@ + decimal(xinpgen_len(buf@) as nat)),
        header_ok(buf@) ==> match pcblist_records(buf@, hz) {
            Ok(s) => r matches Ok(v) && record_views(v@) == s,
            Err(e) => r matches Err(e2) && e2 == e,
        },
{
    let mut records: Vec<RawSocketRecord> = Vec::new();

    if buf.len() < 4 {
        return Err(CollectError::Truncated { offset: 0, need: 4, have: buf.len() });
    }
    // Skip the xinpgen header
    let header_len = read_u32_at(buf, XINPGEN_LEN_OFFSET)?;
    if header_len == 0 || header_len as usize > buf.len() {
        let mut message = String::from_str("invalid header length: ");
        push_decimal(&mut message, header_len as u64);
        return Err(CollectError::Parse { offset: 0, message });
    }

    let mut pos = roundup64(header_len);
    let mut acc = ConnectionAccumulator::new();
    let ghost start = pos as int;
    assert(record_views(records@) =~= Seq::<RecordView>::empty());

    while pos <= buf.len() && buf.len() - pos >= TAG_HEADER_SIZE
        invariant
            buf@.len() <= isize::MAX,
            header_ok(buf@),
            start == spec_roundup64(xinpgen_len(buf@) as int),
            pos <= buf@.len() + 7,
            tags_well_formed(buf@, pos as int),
            walk(buf@, start, empty_record_view(), false, hz) == prefixed(
                record_views(records@),
                walk(buf@, pos as int, acc.rec@, acc.has_socket, hz),
            ),
        ensures
            walk(buf@, start, empty_record_view(), false, hz) == prefixed(
                record_views(records@),
                walk(buf@, pos as int, acc.rec@, acc.has_socket, hz),
            ),
            walk(buf@, pos as int, acc.rec@, acc.has_socket, hz) == Ok::<
                Seq<RecordView>,
                CollectError,
            >(emitted(acc.rec@, acc.has_socket)),
        decreases buf@.len() + 8 - pos,
    {
        let rec_len = read_u32_at(buf, pos + TAG_LEN_OFFSET)?;
        let rec_kind = read_u32_at(buf, pos + TAG_KIND_OFFSET)?;

        // A zero-length record or zero-kind marks the trailer
        if rec_len == 0 || rec_kind == 0 {
            break;
        }
        if rec_len as usize > buf.len() - pos {
            return Err(
                CollectError::Truncated { offset: pos, need: rec_len as usize, have: buf.len() - pos },
            );
        }
        let rec_end = pos + rec_len as usize;

        // Body starts after the 8-byte tag header
        let body = &buf[pos + TAG_HEADER_SIZE..rec_end];
        let ghost old_records = record_views(records@);
        let ghost out: Seq<RecordView> = if rec_kind == XSO_SOCKET {
            emitted(acc.rec@, acc.has_socket)
        } else {
            Seq::empty()
        };
        apply_tagged_record(&mut acc, &mut records, rec_kind, body, hz);
        assert(body@ == buf@.subrange(pos + 8, pos + rec_len));
        let ghost old_pos = pos as int;

        // Advance cursor by the aligned record length
        pos = pos + roundup64(rec_len);
        proof {
            lemma_prefixed_assoc(old_records, out, walk(buf@, pos as int, acc.rec@, acc.has_socket, hz));
        }
    }

    // Emit the last accumulator
    let ghost before = record_views(records@);
    let ghost last = emitted(acc.rec@, acc.has_socket);
    if let Some(rec) = acc.build() {
        records.push(rec);
    }
    assert(record_views(records@) =~= before + last);
    Ok(records)
}

/// Decides `pcblist_well_formed`: that no record of the stream is shorter
/// than its own tag header.
pub fn pcblist_tags_well_formed(buf: &[u8]) -> (ok: bool)
    requires
        buf@.len() <= isize::MAX,
    ensures
        ok == pcblist_well_formed(buf@),
{
    if buf.len() < 4 {
        return true;
    }
    let header_len = read_le_u32(buf, XINPGEN_LEN_OFFSET);
    if header_len == 0 || header_len as usize > buf.len() {
        return true;
    }
    let mut pos = roundup64(header_len);
    while pos <= buf.len() && buf.len() - pos >= TAG_HEADER_SIZE
        invariant
            buf@.len() <= isize::MAX,
            pos <= buf@.len() + 7,
            pcblist_well_formed(buf@) == tags_well_formed(buf@, pos as int),
        decreases buf@.len() + 8 - pos,
    {
        let rec_len = read_le_u32(buf, pos + TAG_LEN_OFFSET);
        let rec_kind = read_le_u32(buf, pos + TAG_KIND_OFFSET);
        if rec_len == 0 || rec_kind == 0 || rec_len as usize > buf.len() - pos {
            return true;
        }
        if (rec_len as usize) < TAG_HEADER_SIZE {
            return false;
        }
        pos = pos + roundup64(rec_len);
    }
    true
}

/// Assembles a macOS collection pass from a validated `pcblist_n` buffer, its
/// generation and the clock rate: the records are those of
/// `parse_pcblist_n`, and the duration runs from `started` until now.
pub fn collect(pcblist: &[u8], generation: u64, hz: i32, started: &Instant) -> (r: Result<
    CollectionResult,
    CollectError,
>)
    requires
        pcblist@.len() <= isize::MAX,
        pcblist_well_formed(pcblist@),
    ensures
        pcblist@.len() < 4 ==> (r matches Err(CollectError::Truncated { offset, need, have })
            && offset == 0 && need == 4 && have == pcblist@.len()),
        pcblist@.len() >= 4 && !header_ok(pcblist@) ==> (r matches Err(
            CollectError::Parse { offset, message },
        ) && offset == 0 && message@ == "invalid header length: "@ + decimal(
            xinpgen_len(pcblist@) as nat,
        )),
        header_ok(pcblist@) ==> match pcblist_records(pcblist@, hz) {
            Ok(s) => r matches Ok(c) && record_views(c.records@) == s && c.generation == generation,
            Err(e) => r matches Err(e2) && e2 == e,
        },
{
    let records = match parse_pcblist_n(pcblist, hz) {
        Ok(v) => v,
        Err(e) => {
            return Err(e);
        },
    };
    let duration = elapsed_ns(started);
    Ok(CollectionResult { records, generation, collection_duration_ns: duration })
}

/// Every record of a walk is tagged with the `pcblist_n` data source (and
/// only with it).
pub proof fn lemma_walk_tagged(buf: Seq<u8>, pos: int, rec: RecordView, has_socket: bool, hz: i32)
    ensures
        walk(buf, pos, rec, has_socket, hz) matches Ok(s) ==> forall|i: int|
            0 <= i < s.len() ==> (#[trigger] s[i]).sources == seq![DATA_SOURCE_MACOS_PCBLIST_N],
    decreases buf.len() + 8 - pos,
{
    if pos < 0 || pos + 8 > buf.len() {
    } else {
        let len = le_u32(buf, pos) as int;
        let kind = le_u32(buf, pos + 4);
        if len == 0 || kind == 0 || pos + len > buf.len() {
        } else {
            let body = buf.subrange(pos + 8, pos + len);
            let next = apply_record(rec, has_socket, kind, body, hz);
            lemma_walk_tagged(buf, pos + spec_roundup64(len), next.0, next.1, hz);
            let out = if kind == XSO_SOCKET {
                emitted(rec, has_socket)
            } else {
                Seq::empty()
            };
            if let Ok(rest) = walk(buf, pos + spec_roundup64(len), next.0, next.1, hz) {
                assert forall|i: int| 0 <= i < (out + rest).len() implies (#[trigger] (out
                    + rest)[i]).sources == seq![DATA_SOURCE_MACOS_PCBLIST_N] by {
                    if i < out.len() {
                        assert((out + rest)[i] == out[i]);
                    } else {
                        assert((out + rest)[i] == rest[i - out.len()]);
                    }
                }
            }
        }
    }
}

/// Every socket record parsed from a `pcblist_n` buffer carries exactly the
/// `pcblist_n` source tag.
pub proof fn lemma_pcblist_records_tagged(buf: Seq<u8>, hz: i32)
    ensures
        pcblist_records(buf, hz) matches Ok(s) ==> forall|i: int|
            0 <= i < s.len() ==> (#[trigger] s[i]).sources == seq![DATA_SOURCE_MACOS_PCBLIST_N],
{
    lemma_walk_tagged(buf, spec_roundup64(xinpgen_len(buf) as int), empty_record_view(), false, hz);
}

/// The `xsocket_n` tags of the stream from `pos`, walked as `walk` walks it.
pub open spec fn socket_tags(buf: Seq<u8>, pos: int) -> nat
    decreases buf.len() + 8 - pos,
{
    if pos < 0 || pos + 8 > buf.len() {
        0
    } else {
        let len = le_u32(buf, pos) as int;
        let kind = le_u32(buf, pos + 4);
        if len == 0 || kind == 0 || pos + len > buf.len() {
            0
        } else {
            (if kind == XSO_SOCKET {
                1nat
            } else {
                0nat
            }) + socket_tags(buf, pos + spec_roundup64(len))
        }
    }
}

/// A walk yields one record per `xsocket_n` tag, plus the socket already
/// open when it starts.
pub proof fn lemma_walk_counts(buf: Seq<u8>, pos: int, rec: RecordView, has_socket: bool, hz: i32)
    ensures
        walk(buf, pos, rec, has_socket, hz) matches Ok(s) ==> s.len() == (if has_socket {
            1nat
        } else {
            0nat
        }) + socket_tags(buf, pos),
    decreases buf.len() + 8 - pos,
{
    if pos < 0 || pos + 8 > buf.len() {
    } else {
        let len = le_u32(buf, pos) as int;
        let kind = le_u32(buf, pos + 4);
        if len == 0 || kind == 0 || pos + len > buf.len() {
        } else {
            let body = buf.subrange(pos + 8, pos + len);
            let next = apply_record(rec, has_socket, kind, body, hz);
            lemma_walk_counts(buf, pos + spec_roundup64(len), next.0, next.1, hz);
        }
    }
}

/// A `pcblist_n` buffer yields one record per `xsocket_n` tag of its stream;
/// tags before the first `xsocket_n` belong to no record.
pub proof fn lemma_pcblist_record_count(buf: Seq<u8>, hz: i32)
    ensures
        pcblist_records(buf, hz) matches Ok(s) ==> s.len() == socket_tags(
            buf,
            spec_roundup64(xinpgen_len(buf) as int),
        ),
{
    lemma_walk_counts(buf, spec_roundup64(xinpgen_len(buf) as int), empty_record_view(), false, hz);
}

/// A record of a kind the parser does not read (`xsockstat_n` or an unknown
/// kind) is skipped: the walk from it is the walk from the next record.
pub proof fn lemma_other_kinds_skipped(buf: Seq<u8>, pos: int, rec: RecordView, has_socket: bool, hz: i32)
    requires
        0 <= pos,
        pos + 8 <= buf.len(),
        le_u32(buf, pos) != 0,
        pos + le_u32(buf, pos) <= buf.len(),
        le_u32(buf, pos + 4) != 0,
        le_u32(buf, pos + 4) != XSO_SOCKET,
        le_u32(buf, pos + 4) != XSO_RCVBUF,
        le_u32(buf, pos + 4) != XSO_SNDBUF,
        le_u32(buf, pos + 4) != XSO_INPCB,
        le_u32(buf, pos + 4) != XSO_TCPCB,
    ensures
        walk(buf, pos, rec, has_socket, hz) == walk(
            buf,
            pos + spec_roundup64(le_u32(buf, pos) as int),
            rec,
            has_socket,
            hz,
        ),
{
    let len = le_u32(buf, pos) as int;
    let r = walk(buf, pos + spec_roundup64(len), rec, has_socket, hz);
    if let Ok(t) = r {
        assert(Seq::<RecordView>::empty() + t =~= t);
    }
}

/// An `xtcpcb_n` record (kind 0x20) long enough to hold all its fields
/// sets each TCP field of the socket from its own offset of the body
/// (little-endian): state 0, retransmit shift 4, flags 8, congestion window
/// 12, slow-start threshold 16, maximum segment 20, sequence numbers 32 to
/// 48, send window 52, receive window 56, window scales 60 and 61, duplicate
/// ACKs 64, start time 68; the smoothed RTT (24, shifted by 3), its variance
/// (28, shifted by 2) and the RTO (72) in ticks, converted to microseconds.
/// Nothing else changes.
pub proof fn lemma_xtcpcb_record_fields(rec: RecordView, has_socket: bool, body: Seq<u8>, hz: i32)
    requires
        body.len() > 76,
        hz > 0,
    ensures
        ({
            let (x, hs) = apply_record(rec, has_socket, 0x20, body, hz);
            &&& hs == has_socket
            &&& x.state == Some(le_i32(body, 0))
            &&& x.rxt_shift == Some(le_u32(body, 4))
            &&& x.tcp_flags == Some(le_u32(body, 8))
            &&& x.snd_cwnd == Some(le_u32(body, 12))
            &&& x.snd_ssthresh == Some(le_u32(body, 16))
            &&& x.maxseg == Some(le_u32(body, 20))
            &&& x.rtt_us == Some((((le_u32(body, 24) >> 3u32) as int * 1_000_000) / (hz as int)) as u32)
            &&& x.rttvar_us == Some((((le_u32(body, 28) >> 2u32) as int * 1_000_000) / (hz as int)) as u32)
            &&& x.snd_nxt == Some(le_u32(body, 32))
            &&& x.snd_una == Some(le_u32(body, 36))
            &&& x.snd_max == Some(le_u32(body, 40))
            &&& x.rcv_nxt == Some(le_u32(body, 44))
            &&& x.rcv_adv == Some(le_u32(body, 48))
            &&& x.snd_wnd == Some(le_u32(body, 52))
            &&& x.rcv_wnd == Some(le_u32(body, 56))
            &&& x.snd_wscale == Some(body[60] as u32)
            &&& x.rcv_wscale == Some(body[61] as u32)
            &&& x.dupacks == Some(le_u32(body, 64))
            &&& x.start_time_secs == Some(le_u32(body, 68))
            &&& x.rto_us == Some(((le_u32(body, 72) as int * 1_000_000) / (hz as int)) as u32)
            &&& x.snd_buf_used == rec.snd_buf_used && x.rcv_buf_used == rec.rcv_buf_used
            &&& x.snd_buf_hiwat == rec.snd_buf_hiwat && x.rcv_buf_hiwat == rec.rcv_buf_hiwat
            &&& x.local_port == rec.local_port && x.remote_port == rec.remote_port
            &&& x.local_addr == rec.local_addr && x.remote_addr == rec.remote_addr
            &&& x.socket_id == rec.socket_id && x.uid == rec.uid && x.pid == rec.pid
            &&& x.effective_pid == rec.effective_pid && x.inp_gencnt == rec.inp_gencnt
        }),
{
    reveal(xtcpcb_fields);
}

/// The receive buffer's record (kind 0x2) sets the receive buffer's
/// occupancy (offset 0) and limit (offset 4), the send buffer's record (kind
/// 0x4) the send buffer's; neither touches the other buffer.
pub proof fn lemma_sockbuf_record_fields(rec: RecordView, has_socket: bool, body: Seq<u8>, hz: i32)
    requires
        body.len() > 8,
    ensures
        ({
            let (x, hs) = apply_record(rec, has_socket, 0x2, body, hz);
            &&& hs == has_socket
            &&& x.rcv_buf_used == Some(le_u32(body, 0))
            &&& x.rcv_buf_hiwat == Some(le_u32(body, 4))
            &&& x.snd_buf_used == rec.snd_buf_used
            &&& x.snd_buf_hiwat == rec.snd_buf_hiwat
        }),
        ({
            let (x, hs) = apply_record(rec, has_socket, 0x4, body, hz);
            &&& hs == has_socket
            &&& x.snd_buf_used == Some(le_u32(body, 0))
            &&& x.snd_buf_hiwat == Some(le_u32(body, 4))
            &&& x.rcv_buf_used == rec.rcv_buf_used
            &&& x.rcv_buf_hiwat == rec.rcv_buf_hiwat
        }),
{
    reveal(rcvbuf_fields);
    reveal(sndbuf_fields);
}

/// An `xsocket_n` record (kind 0x1) starts a new socket: the kernel socket
/// id (u64 at 8), uid (36), last pid (68) and effective pid (72) come from
/// its body, and no field of the previous socket is kept.
pub proof fn lemma_xsocket_record_fields(rec: RecordView, has_socket: bool, body: Seq<u8>, hz: i32)
    requires
        body.len() > 76,
    ensures
        ({
            let (x, hs) = apply_record(rec, has_socket, 0x1, body, hz);
            &&& hs
            &&& x.socket_id == Some(le_u64(body, 8))
            &&& x.uid == Some(le_u32(body, 36))
            &&& x.pid == Some(le_i32(body, 68))
            &&& x.effective_pid == Some(le_i32(body, 72))
            &&& x.state is None && x.snd_wnd is None && x.rcv_wnd is None
            &&& x.local_port is None && x.remote_port is None
            &&& x.snd_buf_used is None && x.rcv_buf_used is None
        }),
{
    reveal(xsocket_fields);
}

/// An `xinpcb_n` record (kind 0x10) long enough to hold its fields sets the
/// local port (network order, 72), remote port (70) and generation count
/// (u64 at 104); for IPv6 (`inp_vflag` at 44 has 0x2) the local address is
/// the 16 bytes at 48 and the remote the 16 at 32, for IPv4 only (0x1) the
/// local address is the 4 bytes at 84 and the remote the 4 at 80.
pub proof fn lemma_xinpcb_record_fields(rec: RecordView, has_socket: bool, body: Seq<u8>, hz: i32)
    requires
        body.len() > 112,
    ensures
        ({
            let (x, hs) = apply_record(rec, has_socket, 0x10, body, hz);
            let vflag = body[44];
            &&& hs == has_socket
            &&& x.local_port == Some(be_u16(body, 72))
            &&& x.remote_port == Some(be_u16(body, 70))
            &&& x.inp_gencnt == Some(le_u64(body, 104))
            &&& vflag & 2 != 0 ==> x.ip_version == Some(6u8) && x.local_addr == Some(v6_at(body, 48))
                && x.remote_addr == Some(v6_at(body, 32))
            &&& vflag & 2 == 0 && vflag & 1 != 0 ==> x.ip_version == Some(4u8) && x.local_addr
                == Some(v4_at(body, 84)) && x.remote_addr == Some(v4_at(body, 80))
            &&& x.snd_wnd == rec.snd_wnd && x.rcv_wnd == rec.rcv_wnd && x.state == rec.state
        }),
{
    reveal(xinpcb_fields);
}

} // verus!

