use bsd_xtcp::sysctl::{
    check_pcblist_generation, decode_os_version, parse_clock_hz, pcblist_step, read_clock_hz,
    read_os_version, read_pcblist_validated, read_sysctl, PcblistStep, SysctlError,
};
use bsd_xtcp::text::trim;
use std::cell::Cell;

/// A pcblist buffer: header with `header_gen`, `body`, trailer with `trailer_gen`.
fn pcblist(header_gen: u64, body: &[u8], trailer_gen: u64) -> Vec<u8> {
    let mut buf = vec![0u8; 24];
    buf[0..4].copy_from_slice(&24u32.to_le_bytes());
    buf[8..16].copy_from_slice(&header_gen.to_le_bytes());
    buf.extend_from_slice(body);
    let mut trailer = vec![0u8; 24];
    trailer[0..4].copy_from_slice(&24u32.to_le_bytes());
    trailer[8..16].copy_from_slice(&trailer_gen.to_le_bytes());
    buf.extend_from_slice(&trailer);
    buf
}

#[test]
fn clock_hz_parsing() {
    assert!(matches!(parse_clock_hz(&100i32.to_le_bytes()), Ok(100)));
    assert!(matches!(parse_clock_hz(&[0xe8, 3, 0, 0, 9, 9]), Ok(1000)));
    assert!(matches!(
        parse_clock_hz(&[1, 2, 3]),
        Err(SysctlError::TooSmall { got: 3, need: 4 })
    ));
}

#[test]
fn pcblist_generation_check() {
    assert!(matches!(check_pcblist_generation(&pcblist(7, &[0; 8], 7)), Ok(Some(7))));
    assert!(matches!(check_pcblist_generation(&pcblist(7, &[], 8)), Ok(None)));
    assert!(matches!(
        check_pcblist_generation(&[0u8; 10]),
        Err(SysctlError::TooSmall { got: 10, need: 24 })
    ));
    // A header length beyond the buffer.
    let mut buf = vec![0u8; 24];
    buf[0..4].copy_from_slice(&100u32.to_le_bytes());
    assert!(matches!(
        check_pcblist_generation(&buf),
        Err(SysctlError::TooSmall { got: 24, need: 100 })
    ));
    // A header length too short for the trailer's generation.
    let mut buf = vec![0u8; 24];
    buf[0..4].copy_from_slice(&8u32.to_le_bytes());
    assert!(matches!(
        check_pcblist_generation(&buf),
        Err(SysctlError::TooSmall { got: 24, need: 32 })
    ));
}

#[test]
fn pcblist_read_retries_until_consistent() {
    let calls = Cell::new(0u32);
    let reader = |name: &str| -> Result<Vec<u8>, SysctlError> {
        assert_eq!(name, "net.inet.tcp.pcblist_n");
        calls.set(calls.get() + 1);
        if calls.get() < 3 {
            Ok(pcblist(1, &[], 2))
        } else {
            Ok(pcblist(5, &[1, 2, 3], 5))
        }
    };
    match read_pcblist_validated("net.inet.tcp.pcblist_n", 3, &reader) {
        Ok((buf, generation)) => {
            assert_eq!(generation, 5);
            assert_eq!(buf, pcblist(5, &[1, 2, 3], 5));
        }
        Err(e) => panic!("unexpected error {e:?}"),
    }
    assert_eq!(calls.get(), 3);
}

#[test]
fn pcblist_read_gives_up_after_retries() {
    let calls = Cell::new(0u32);
    let reader = |_: &str| -> Result<Vec<u8>, SysctlError> {
        calls.set(calls.get() + 1);
        Ok(pcblist(1, &[], 2))
    };
    match read_pcblist_validated("x.y", 2, &reader) {
        Err(SysctlError::GenerationMismatch { name, retries }) => {
            assert_eq!(name, "x.y");
            assert_eq!(retries, 2);
        }
        other => panic!("unexpected result {other:?}"),
    }
    assert_eq!(calls.get(), 3);
}

#[test]
fn pcblist_read_passes_reader_errors() {
    let reader = |_: &str| -> Result<Vec<u8>, SysctlError> { Err(SysctlError::UnsupportedPlatform) };
    assert!(matches!(
        read_pcblist_validated("x", 3, &reader),
        Err(SysctlError::UnsupportedPlatform)
    ));
    let short = |_: &str| -> Result<Vec<u8>, SysctlError> { Ok(vec![0u8; 4]) };
    assert!(matches!(
        read_pcblist_validated("x", 3, &short),
        Err(SysctlError::TooSmall { got: 4, need: 24 })
    ));
}

#[test]
fn clock_hz_read() {
    let reader = |name: &str| -> Result<Vec<u8>, SysctlError> {
        assert_eq!(name, "kern.clockrate");
        Ok(vec![100, 0, 0, 0, 16, 39, 0, 0])
    };
    assert!(matches!(read_clock_hz(&reader), Ok(100)));
    assert!(matches!(read_clock_hz(&read_sysctl), Err(SysctlError::UnsupportedPlatform)));
}

#[test]
fn os_version_decoding() {
    assert_eq!(decode_os_version(b"14.2\0\0"), "14.2");
    assert_eq!(decode_os_version(b"15.0"), "15.0");
    assert_eq!(decode_os_version(b"\0"), "");
    assert_eq!(decode_os_version(b""), "");
    assert_eq!(decode_os_version(b"a\0b\0"), "a\0b");
    // Invalid UTF-8 is replaced, not dropped.
    assert_eq!(decode_os_version(b"v\xff1\0"), "v\u{FFFD}1");
}

#[test]
fn os_version_read() {
    let reader = |name: &str| -> Result<Vec<u8>, SysctlError> {
        assert_eq!(name, "kern.osproductversion");
        Ok(b"13.4\0".to_vec())
    };
    assert_eq!(read_os_version(&reader).unwrap(), "13.4");
    assert!(matches!(read_os_version(&read_sysctl), Err(SysctlError::UnsupportedPlatform)));
}

#[test]
fn sysctl_without_platform_support() {
    assert!(matches!(read_sysctl("kern.file"), Err(SysctlError::UnsupportedPlatform)));
}

#[test]
fn pcblist_retry_steps() {
    assert_eq!(pcblist_step(0, 3, Some(9)), PcblistStep::Accept(9));
    assert_eq!(pcblist_step(3, 3, Some(9)), PcblistStep::Accept(9));
    assert_eq!(pcblist_step(0, 3, None), PcblistStep::Reread);
    assert_eq!(pcblist_step(2, 3, None), PcblistStep::Reread);
    assert_eq!(pcblist_step(3, 3, None), PcblistStep::GiveUp);
    assert_eq!(pcblist_step(0, 0, None), PcblistStep::GiveUp);
}

#[test]
fn pcblist_read_too_small_after_retry() {
    let calls = Cell::new(0u32);
    let reader = |_: &str| -> Result<Vec<u8>, SysctlError> {
        calls.set(calls.get() + 1);
        if calls.get() == 1 { Ok(pcblist(1, &[], 2)) } else { Ok(vec![0u8; 30]) }
    };
    // A zero header length puts the trailer at the end, with no room for it.
    assert!(matches!(
        read_pcblist_validated("x", 3, &reader),
        Err(SysctlError::TooSmall { got: 30, need: 46 })
    ));
    assert_eq!(calls.get(), 2);
}

#[test]
fn white_space_trimming() {
    assert_eq!(trim("  80 \t"), "80");
    assert_eq!(trim("\u{3000}a b\u{2029}\n"), "a b");
    assert_eq!(trim(" \u{85} "), "");
    assert_eq!(trim(""), "");
    assert_eq!(trim("x\u{200b}"), "x\u{200b}");
}
