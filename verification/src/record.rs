//! The intermediate per-socket record that every platform parser produces.

use vstd::prelude::*;

verus! {

/// Raw IP address representation from kernel data.
#[derive(Debug, Clone, Copy, PartialEq, Eq)]
pub enum IpAddr {
    V4([u8; 4]),
    V6([u8; 16]),
}

/// Intermediate representation of a TCP socket record parsed from kernel data.
///
/// All values are in normalized units (RTT in microseconds, etc.).
/// `Option<T>` fields may be absent depending on the data source or TCP state.
#[derive(Debug, Clone)]
pub struct RawSocketRecord {
    // Connection identity
    pub local_addr: Option<IpAddr>,
    pub remote_addr: Option<IpAddr>,
    pub local_port: Option<u16>,
    pub remote_port: Option<u16>,
    pub ip_version: Option<u8>,
    pub socket_id: Option<u64>,
    // TCP state (kernel TCPS_* value, 0-10)
    pub state: Option<i32>,
    pub tcp_flags: Option<u32>,
    // Congestion control
    pub snd_cwnd: Option<u32>,
    pub snd_ssthresh: Option<u32>,
    pub snd_wnd: Option<u32>,
    pub rcv_wnd: Option<u32>,
    pub maxseg: Option<u32>,
    pub cc_algo: Option<String>,
    pub tcp_stack: Option<String>,
    // RTT (all in microseconds)
    pub rtt_us: Option<u32>,
    pub rttvar_us: Option<u32>,
    pub rto_us: Option<u32>,
    pub rtt_min_us: Option<u32>,
    // Sequence numbers
    pub snd_nxt: Option<u32>,
    pub snd_una: Option<u32>,
    pub snd_max: Option<u32>,
    pub rcv_nxt: Option<u32>,
    pub rcv_adv: Option<u32>,
    // Window scale and negotiated options
    pub snd_wscale: Option<u32>,
    pub rcv_wscale: Option<u32>,
    pub options: Option<u8>,
    // Counters
    pub snd_rexmitpack: Option<u32>,
    pub rcv_ooopack: Option<u32>,
    pub snd_zerowin: Option<u32>,
    pub dupacks: Option<u32>,
    pub rcv_numsacks: Option<u32>,
    pub rxt_shift: Option<u32>,
    // ECN
    pub ecn_flags: Option<u32>,
    pub delivered_ce: Option<u32>,
    pub received_ce: Option<u32>,
    // DSACK and tail loss probes
    pub dsack_bytes: Option<u32>,
    pub dsack_pack: Option<u32>,
    pub total_tlp: Option<u32>,
    pub total_tlp_bytes: Option<u64>,
    // Timers in milliseconds (0 = not running)
    pub timer_rexmt_ms: Option<u32>,
    pub timer_persist_ms: Option<u32>,
    pub timer_keep_ms: Option<u32>,
    pub timer_2msl_ms: Option<u32>,
    pub timer_delack_ms: Option<u32>,
    pub idle_time_ms: Option<u32>,
    // Buffers
    pub snd_buf_used: Option<u32>,
    pub snd_buf_hiwat: Option<u32>,
    pub rcv_buf_used: Option<u32>,
    pub rcv_buf_hiwat: Option<u32>,
    // Process attribution
    pub pid: Option<i32>,
    pub effective_pid: Option<i32>,
    pub uid: Option<u32>,
    pub fd: Option<i32>,
    // Platform-specific
    pub inp_gencnt: Option<u64>,
    pub start_time_secs: Option<u32>,
    // Data source tags
    pub sources: Vec<u8>,
}

/// The mathematical value of a `RawSocketRecord`: strings as character
/// sequences and the source list as a byte sequence.
pub struct RecordView {
    pub local_addr: Option<IpAddr>,
    pub remote_addr: Option<IpAddr>,
    pub local_port: Option<u16>,
    pub remote_port: Option<u16>,
    pub ip_version: Option<u8>,
    pub socket_id: Option<u64>,
    pub state: Option<i32>,
    pub tcp_flags: Option<u32>,
    pub snd_cwnd: Option<u32>,
    pub snd_ssthresh: Option<u32>,
    pub snd_wnd: Option<u32>,
    pub rcv_wnd: Option<u32>,
    pub maxseg: Option<u32>,
    pub cc_algo: Option<Seq<char>>,
    pub tcp_stack: Option<Seq<char>>,
    pub rtt_us: Option<u32>,
    pub rttvar_us: Option<u32>,
    pub rto_us: Option<u32>,
    pub rtt_min_us: Option<u32>,
    pub snd_nxt: Option<u32>,
    pub snd_una: Option<u32>,
    pub snd_max: Option<u32>,
    pub rcv_nxt: Option<u32>,
    pub rcv_adv: Option<u32>,
    pub snd_wscale: Option<u32>,
    pub rcv_wscale: Option<u32>,
    pub options: Option<u8>,
    pub snd_rexmitpack: Option<u32>,
    pub rcv_ooopack: Option<u32>,
    pub snd_zerowin: Option<u32>,
    pub dupacks: Option<u32>,
    pub rcv_numsacks: Option<u32>,
    pub rxt_shift: Option<u32>,
    pub ecn_flags: Option<u32>,
    pub delivered_ce: Option<u32>,
    pub received_ce: Option<u32>,
    pub dsack_bytes: Option<u32>,
    pub dsack_pack: Option<u32>,
    pub total_tlp: Option<u32>,
    pub total_tlp_bytes: Option<u64>,
    pub timer_rexmt_ms: Option<u32>,
    pub timer_persist_ms: Option<u32>,
    pub timer_keep_ms: Option<u32>,
    pub timer_2msl_ms: Option<u32>,
    pub timer_delack_ms: Option<u32>,
    pub idle_time_ms: Option<u32>,
    pub snd_buf_used: Option<u32>,
    pub snd_buf_hiwat: Option<u32>,
    pub rcv_buf_used: Option<u32>,
    pub rcv_buf_hiwat: Option<u32>,
    pub pid: Option<i32>,
    pub effective_pid: Option<i32>,
    pub uid: Option<u32>,
    pub fd: Option<i32>,
    pub inp_gencnt: Option<u64>,
    pub start_time_secs: Option<u32>,
    pub sources: Seq<u8>,
}

/// The characters of an optional string.
pub open spec fn opt_string_view(s: &Option<String>) -> Option<Seq<char>> {
    match s {
        Some(s) => Some(s@),
        None => None,
    }
}

impl View for RawSocketRecord {
    type V = RecordView;

    open spec fn view(&self) -> RecordView {
        RecordView {
            local_addr: self.local_addr,
            remote_addr: self.remote_addr,
            local_port: self.local_port,
            remote_port: self.remote_port,
            ip_version: self.ip_version,
            socket_id: self.socket_id,
            state: self.state,
            tcp_flags: self.tcp_flags,
            snd_cwnd: self.snd_cwnd,
            snd_ssthresh: self.snd_ssthresh,
            snd_wnd: self.snd_wnd,
            rcv_wnd: self.rcv_wnd,
            maxseg: self.maxseg,
            cc_algo: opt_string_view(&self.cc_algo),
            tcp_stack: opt_string_view(&self.tcp_stack),
            rtt_us: self.rtt_us,
            rttvar_us: self.rttvar_us,
            rto_us: self.rto_us,
            rtt_min_us: self.rtt_min_us,
            snd_nxt: self.snd_nxt,
            snd_una: self.snd_una,
            snd_max: self.snd_max,
            rcv_nxt: self.rcv_nxt,
            rcv_adv: self.rcv_adv,
            snd_wscale: self.snd_wscale,
            rcv_wscale: self.rcv_wscale,
            options: self.options,
            snd_rexmitpack: self.snd_rexmitpack,
            rcv_ooopack: self.rcv_ooopack,
            snd_zerowin: self.snd_zerowin,
            dupacks: self.dupacks,
            rcv_numsacks: self.rcv_numsacks,
            rxt_shift: self.rxt_shift,
            ecn_flags: self.ecn_flags,
            delivered_ce: self.delivered_ce,
            received_ce: self.received_ce,
            dsack_bytes: self.dsack_bytes,
            dsack_pack: self.dsack_pack,
            total_tlp: self.total_tlp,
            total_tlp_bytes: self.total_tlp_bytes,
            timer_rexmt_ms: self.timer_rexmt_ms,
            timer_persist_ms: self.timer_persist_ms,
            timer_keep_ms: self.timer_keep_ms,
            timer_2msl_ms: self.timer_2msl_ms,
            timer_delack_ms: self.timer_delack_ms,
            idle_time_ms: self.idle_time_ms,
            snd_buf_used: self.snd_buf_used,
            snd_buf_hiwat: self.snd_buf_hiwat,
            rcv_buf_used: self.rcv_buf_used,
            rcv_buf_hiwat: self.rcv_buf_hiwat,
            pid: self.pid,
            effective_pid: self.effective_pid,
            uid: self.uid,
            fd: self.fd,
            inp_gencnt: self.inp_gencnt,
            start_time_secs: self.start_time_secs,
            sources: self.sources@,
        }
    }
}

/// The record with every field absent and no source tags.
pub open spec fn empty_record_view() -> RecordView {
    RecordView {
        local_addr: None,
        remote_addr: None,
        local_port: None,
        remote_port: None,
        ip_version: None,
        socket_id: None,
        state: None,
        tcp_flags: None,
        snd_cwnd: None,
        snd_ssthresh: None,
        snd_wnd: None,
        rcv_wnd: None,
        maxseg: None,
        cc_algo: None,
        tcp_stack: None,
        rtt_us: None,
        rttvar_us: None,
        rto_us: None,
        rtt_min_us: None,
        snd_nxt: None,
        snd_una: None,
        snd_max: None,
        rcv_nxt: None,
        rcv_adv: None,
        snd_wscale: None,
        rcv_wscale: None,
        options: None,
        snd_rexmitpack: None,
        rcv_ooopack: None,
        snd_zerowin: None,
        dupacks: None,
        rcv_numsacks: None,
        rxt_shift: None,
        ecn_flags: None,
        delivered_ce: None,
        received_ce: None,
        dsack_bytes: None,
        dsack_pack: None,
        total_tlp: None,
        total_tlp_bytes: None,
        timer_rexmt_ms: None,
        timer_persist_ms: None,
        timer_keep_ms: None,
        timer_2msl_ms: None,
        timer_delack_ms: None,
        idle_time_ms: None,
        snd_buf_used: None,
        snd_buf_hiwat: None,
        rcv_buf_used: None,
        rcv_buf_hiwat: None,
        pid: None,
        effective_pid: None,
        uid: None,
        fd: None,
        inp_gencnt: None,
        start_time_secs: None,
        sources: Seq::empty(),
    }
}

impl RawSocketRecord {
    /// A record with every field absent and no source tags.
    pub fn empty() -> (r: RawSocketRecord)
        ensures
            r@ == empty_record_view(),
    {
        RawSocketRecord {
            local_addr: None,
            remote_addr: None,
            local_port: None,
            remote_port: None,
            ip_version: None,
            socket_id: None,
            state: None,
            tcp_flags: None,
            snd_cwnd: None,
            snd_ssthresh: None,
            snd_wnd: None,
            rcv_wnd: None,
            maxseg: None,
            cc_algo: None,
            tcp_stack: None,
            rtt_us: None,
            rttvar_us: None,
            rto_us: None,
            rtt_min_us: None,
            snd_nxt: None,
            snd_una: None,
            snd_max: None,
            rcv_nxt: None,
            rcv_adv: None,
            snd_wscale: None,
            rcv_wscale: None,
            options: None,
            snd_rexmitpack: None,
            rcv_ooopack: None,
            snd_zerowin: None,
            dupacks: None,
            rcv_numsacks: None,
            rxt_shift: None,
            ecn_flags: None,
            delivered_ce: None,
            received_ce: None,
            dsack_bytes: None,
            dsack_pack: None,
            total_tlp: None,
            total_tlp_bytes: None,
            timer_rexmt_ms: None,
            timer_persist_ms: None,
            timer_keep_ms: None,
            timer_2msl_ms: None,
            timer_delack_ms: None,
            idle_time_ms: None,
            snd_buf_used: None,
            snd_buf_hiwat: None,
            rcv_buf_used: None,
            rcv_buf_hiwat: None,
            pid: None,
            effective_pid: None,
            uid: None,
            fd: None,
            inp_gencnt: None,
            start_time_secs: None,
            sources: Vec::new(),
        }
    }
}

impl Default for RawSocketRecord {
    fn default() -> (r: RawSocketRecord)
        ensures
            r@ == empty_record_view(),
    {
        RawSocketRecord::empty()
    }
}

/// The views of a sequence of records.
pub open spec fn record_views(s: Seq<RawSocketRecord>) -> Seq<RecordView> {
    s.map_values(|r: RawSocketRecord| r@)
}

} // verus!
