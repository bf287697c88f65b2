//! The export schema: one record per socket, a collection summary, and the
//! batch that carries them. Enumerations are exported as their `i32` codes.

use vstd::prelude::*;

verus! {

/// TCP connection state as exported (kernel `TCPS_*` value + 1; 0 = unknown).
#[derive(Debug, Clone, Copy, PartialEq, Eq)]
pub enum TcpState {
    Unknown,
    Closed,
    Listen,
    SynSent,
    SynReceived,
    Established,
    CloseWait,
    FinWait1,
    Closing,
    LastAck,
    FinWait2,
    TimeWait,
}

/// The exported code of a state.
pub open spec fn tcp_state_code(s: TcpState) -> i32 {
    match s {
        TcpState::Unknown => 0,
        TcpState::Closed => 1,
        TcpState::Listen => 2,
        TcpState::SynSent => 3,
        TcpState::SynReceived => 4,
        TcpState::Established => 5,
        TcpState::CloseWait => 6,
        TcpState::FinWait1 => 7,
        TcpState::Closing => 8,
        TcpState::LastAck => 9,
        TcpState::FinWait2 => 10,
        TcpState::TimeWait => 11,
    }
}

impl TcpState {
    /// The exported code of the state.
    pub fn as_i32(self) -> (c: i32)
        ensures
            c == tcp_state_code(self),
    {
        match self {
            TcpState::Unknown => 0,
            TcpState::Closed => 1,
            TcpState::Listen => 2,
            TcpState::SynSent => 3,
            TcpState::SynReceived => 4,
            TcpState::Established => 5,
            TcpState::CloseWait => 6,
            TcpState::FinWait1 => 7,
            TcpState::Closing => 8,
            TcpState::LastAck => 9,
            TcpState::FinWait2 => 10,
            TcpState::TimeWait => 11,
        }
    }
}

/// IP version as exported.
#[derive(Debug, Clone, Copy, PartialEq, Eq)]
pub enum IpVersion {
    Unknown,
    IpVersion4,
    IpVersion6,
}

/// The exported code of an IP version.
pub open spec fn ip_version_code(v: IpVersion) -> i32 {
    match v {
        IpVersion::Unknown => 0,
        IpVersion::IpVersion4 => 1,
        IpVersion::IpVersion6 => 2,
    }
}

impl IpVersion {
    /// The exported code of the IP version.
    pub fn as_i32(self) -> (c: i32)
        ensures
            c == ip_version_code(self),
    {
        match self {
            IpVersion::Unknown => 0,
            IpVersion::IpVersion4 => 1,
            IpVersion::IpVersion6 => 2,
        }
    }
}

/// The operating system a batch was collected on.
#[derive(Debug, Clone, Copy, PartialEq, Eq)]
pub enum Platform {
    Unknown,
    Macos,
    Freebsd,
}

/// The exported code of a platform.
pub open spec fn platform_code(p: Platform) -> i32 {
    match p {
        Platform::Unknown => 0,
        Platform::Macos => 1,
        Platform::Freebsd => 2,
    }
}

impl Platform {
    /// The exported code of the platform.
    pub fn as_i32(self) -> (c: i32)
        ensures
            c == platform_code(self),
    {
        match self {
            Platform::Unknown => 0,
            Platform::Macos => 1,
            Platform::Freebsd => 2,
        }
    }
}

/// Kernel interfaces a record's fields come from (the tags stored in
/// `RawSocketRecord::sources`).
#[derive(Debug, Clone, Copy, PartialEq, Eq)]
pub enum DataSource {
    Unknown,
    MacosPcblistN,
    FreebsdKld,
    KernFile,
}

/// The exported code of a data source.
pub open spec fn data_source_code(d: DataSource) -> i32 {
    match d {
        DataSource::Unknown => 0,
        DataSource::MacosPcblistN => 1,
        DataSource::FreebsdKld => 5,
        DataSource::KernFile => 6,
    }
}

impl DataSource {
    /// The exported code of the data source.
    pub fn as_i32(self) -> (c: i32)
        ensures
            c == data_source_code(self),
    {
        match self {
            DataSource::Unknown => 0,
            DataSource::MacosPcblistN => 1,
            DataSource::FreebsdKld => 5,
            DataSource::KernFile => 6,
        }
    }
}

/// One socket as exported.
#[derive(Debug, Clone, Default)]
pub struct TcpSocketRecord {
    pub local_addr: Vec<u8>,
    pub remote_addr: Vec<u8>,
    pub local_port: u32,
    pub remote_port: u32,
    pub ip_version: i32,
    pub socket_id: Option<u64>,
    pub state: i32,
    pub tcp_flags: Option<u32>,
    pub snd_cwnd: Option<u32>,
    pub snd_ssthresh: Option<u32>,
    pub snd_wnd: Option<u32>,
    pub rcv_wnd: Option<u32>,
    pub maxseg: Option<u32>,
    pub cc_algo: Option<String>,
    pub tcp_stack: Option<String>,
    pub rtt_us: Option<u32>,
    pub rttvar_us: Option<u32>,
    pub rto_us: Option<u32>,
    pub rtt_min_us: Option<u32>,
    pub snd_nxt: Option<u32>,
    pub snd_una: Option<u32>,
    pub snd_max: Option<u32>,
    pub rcv_nxt: Option<u32>,
    pub rcv_adv: Option<u32>,
    pub snd_wscale: Option<u32>,
    pub rcv_wscale: Option<u32>,
    pub rexmit_packets: Option<u32>,
    pub ooo_packets: Option<u32>,
    pub zerowin_probes: Option<u32>,
    pub dupacks: Option<u32>,
    pub sack_blocks: Option<u32>,
    pub dsack_bytes: Option<u32>,
    pub dsack_packets: Option<u32>,
    pub rxt_shift: Option<u32>,
    pub timer_rexmt_ms: Option<u32>,
    pub timer_persist_ms: Option<u32>,
    pub timer_keep_ms: Option<u32>,
    pub timer_2msl_ms: Option<u32>,
    pub timer_delack_ms: Option<u32>,
    pub idle_time_ms: Option<u32>,
    pub snd_buf_used: Option<u32>,
    pub snd_buf_hiwat: Option<u32>,
    pub rcv_buf_used: Option<u32>,
    pub rcv_buf_hiwat: Option<u32>,
    pub pid: Option<i32>,
    pub effective_pid: Option<i32>,
    pub uid: Option<u32>,
    pub fd: Option<i32>,
    pub ecn_flags: Option<u32>,
    pub ecn_ce_delivered: Option<u32>,
    pub ecn_ce_received: Option<u32>,
    pub negotiated_options: Option<u32>,
    pub tlp_probes_sent: Option<u32>,
    pub tlp_bytes_sent: Option<u64>,
    pub inp_gencnt: Option<u64>,
    pub start_time_secs: Option<u32>,
    pub sources: Vec<i32>,
}

/// Number of sockets in one exported state.
#[derive(Debug, Clone, Copy, Default, PartialEq, Eq)]
pub struct StateBucket {
    pub state: i32,
    pub count: u32,
}

/// An exact rate: `numerator / denominator` with a non-zero denominator.
#[derive(Debug, Clone, Copy, Default, PartialEq, Eq)]
pub struct Ratio {
    pub numerator: u64,
    pub denominator: u64,
}

/// Per-batch summary of the sockets and system-wide counter deltas.
#[derive(Debug, Clone, Default)]
pub struct SystemSummary {
    pub timestamp_ns: u64,
    pub interval_ms: u32,
    pub total_sockets: u32,
    pub state_counts: Vec<StateBucket>,
    pub delta_conn_attempts: Option<u64>,
    pub delta_accepts: Option<u64>,
    pub delta_connects: Option<u64>,
    pub delta_drops: Option<u64>,
    pub delta_snd_total_packets: Option<u64>,
    pub delta_snd_bytes: Option<u64>,
    pub delta_snd_rexmit_packets: Option<u64>,
    pub delta_snd_rexmit_bytes: Option<u64>,
    pub delta_rcv_total_packets: Option<u64>,
    pub delta_rcv_bytes: Option<u64>,
    pub delta_rcv_dup_packets: Option<u64>,
    pub delta_rcv_badsum: Option<u64>,
    pub retransmit_rate: Option<Ratio>,
    pub duplicate_rate: Option<Ratio>,
}

/// Describes one collection pass.
#[derive(Debug, Clone, Default)]
pub struct CollectionMetadata {
    pub timestamp_ns: u64,
    pub hostname: String,
    pub platform: i32,
    pub os_version: String,
    pub interval_ms: u32,
    pub schedule_name: String,
    pub data_sources: Vec<i32>,
    pub collection_duration_ns: u64,
    pub pcblist_generation: Option<u64>,
    pub batch_sequence: u64,
    pub tool_version: String,
}

/// One collection pass as exported.
#[derive(Debug, Clone, Default)]
pub struct BatchMessage {
    pub metadata: Option<CollectionMetadata>,
    pub records: Vec<TcpSocketRecord>,
    pub summary: Option<SystemSummary>,
}

} // verus!
