use bsd_xtcp::platform::macos::parse_pcblist_n;
use bsd_xtcp::platform::macos_layout::{
    roundup64, INP_IPV4, TAG_HEADER_SIZE, XSO_INPCB, XSO_SOCKET, XSO_TCPCB,
};
use bsd_xtcp::record::IpAddr;

/// Build a minimal xinpgen header.
fn make_xinpgen(gen: u64) -> Vec<u8> {
    let mut buf = Vec::new();
    // xig_len: 24 bytes
    buf.extend_from_slice(&24u32.to_ne_bytes());
    // xig_count: 0
    buf.extend_from_slice(&0u32.to_ne_bytes());
    // xig_gen
    buf.extend_from_slice(&gen.to_ne_bytes());
    // xig_sogen
    buf.extend_from_slice(&0u64.to_ne_bytes());
    buf
}

/// Build a tagged record with the given kind and body.
fn make_tagged_record(kind: u32, body: &[u8]) -> Vec<u8> {
    let total_len = (TAG_HEADER_SIZE + body.len()) as u32;
    let mut buf = Vec::new();
    buf.extend_from_slice(&total_len.to_ne_bytes());
    buf.extend_from_slice(&kind.to_ne_bytes());
    buf.extend_from_slice(body);
    // Pad to 8-byte alignment
    let aligned = roundup64(total_len);
    buf.resize(aligned, 0);
    buf
}

/// Build a trailer (xinpgen with matching gen).
fn make_trailer(gen: u64) -> Vec<u8> {
    make_xinpgen(gen)
}

#[test]
fn test_parse_empty_pcblist() {
    let gen = 42u64;
    let mut buf = make_xinpgen(gen);
    // Pad header to 8-byte alignment
    let header_aligned = roundup64(24);
    buf.resize(header_aligned, 0);
    buf.extend_from_slice(&make_trailer(gen));

    let result = parse_pcblist_n(&buf, 100);
    assert!(result.is_ok());
    assert_eq!(result.unwrap().len(), 0);
}

#[test]
fn test_parse_single_connection() {
    let gen = 1u64;
    let mut buf = make_xinpgen(gen);
    let header_aligned = roundup64(24);
    buf.resize(header_aligned, 0);

    // xsocket_n body — needs to be large enough for pid/uid offsets
    let mut socket_body = vec![0u8; 80];
    // so_pcb at offset 8
    socket_body[8..16].copy_from_slice(&0xDEAD_BEEFu64.to_ne_bytes());
    // uid at offset 36
    socket_body[36..40].copy_from_slice(&501u32.to_ne_bytes());
    // pid at offset 68
    socket_body[68..72].copy_from_slice(&1234i32.to_ne_bytes());
    // effective_pid at offset 72
    socket_body[72..76].copy_from_slice(&1234i32.to_ne_bytes());
    buf.extend_from_slice(&make_tagged_record(XSO_SOCKET, &socket_body));

    // xinpcb_n body — needs to have vflag and addresses
    let mut inpcb_body = vec![0u8; 120];
    // vflag at offset 44 = INP_IPV4
    inpcb_body[44] = INP_IPV4;
    // local port at offset 72 (network byte order) = 8080
    inpcb_body[72..74].copy_from_slice(&8080u16.to_be_bytes());
    // foreign port at offset 70 (network byte order) = 443
    inpcb_body[70..72].copy_from_slice(&443u16.to_be_bytes());
    // local addr at offset 84 = 127.0.0.1
    inpcb_body[84..88].copy_from_slice(&[127, 0, 0, 1]);
    // foreign addr at offset 80 = 10.0.0.1
    inpcb_body[80..84].copy_from_slice(&[10, 0, 0, 1]);
    buf.extend_from_slice(&make_tagged_record(XSO_INPCB, &inpcb_body));

    // xtcpcb_n body — state = ESTABLISHED (4 on macOS)
    let mut tcpcb_body = vec![0u8; 80];
    // state at offset 0 = 4 (TCPS_ESTABLISHED)
    tcpcb_body[0..4].copy_from_slice(&4i32.to_ne_bytes());
    // t_srtt at offset 24 = 800: for hz=100, (800 >> 3) * 1_000_000 / 100 = 1_000_000
    tcpcb_body[24..28].copy_from_slice(&800u32.to_ne_bytes());
    // snd_cwnd at offset 12
    tcpcb_body[12..16].copy_from_slice(&65535u32.to_ne_bytes());
    buf.extend_from_slice(&make_tagged_record(XSO_TCPCB, &tcpcb_body));

    // End marker: zero-length record
    buf.extend_from_slice(&0u32.to_ne_bytes());
    buf.extend_from_slice(&0u32.to_ne_bytes());

    let result = parse_pcblist_n(&buf, 100).unwrap();
    assert_eq!(result.len(), 1);

    let rec = &result[0];
    assert_eq!(rec.pid, Some(1234));
    assert_eq!(rec.uid, Some(501));
    assert_eq!(rec.ip_version, Some(4));
    assert_eq!(rec.local_port, Some(8080));
    assert_eq!(rec.remote_port, Some(443));
    assert_eq!(rec.local_addr, Some(IpAddr::V4([127, 0, 0, 1])));
    assert_eq!(rec.remote_addr, Some(IpAddr::V4([10, 0, 0, 1])));
    assert_eq!(rec.state, Some(4));
    assert_eq!(rec.snd_cwnd, Some(65535));
    assert_eq!(rec.rtt_us, Some(1_000_000));
    assert_eq!(rec.sources, vec![1]); // DataSource::MacosPcblistN
}

#[test]
fn test_roundup64() {
    assert_eq!(roundup64(0), 0);
    assert_eq!(roundup64(1), 8);
    assert_eq!(roundup64(7), 8);
    assert_eq!(roundup64(8), 8);
    assert_eq!(roundup64(9), 16);
    assert_eq!(roundup64(100), 104);
}
