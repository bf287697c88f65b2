use bsd_xtcp::echo::cli::{parse_args, parse_ports, Command, HelpTopic, ParsedArgs};
use bsd_xtcp::echo::ramp::{
    batch_pause_ms, batch_plan, fixed_ramp_interval, is_good_batch, next_batch,
    RampAction, RampState, BAD_BATCH_PAUSE_MS, GOOD_BATCH_PAUSE_MS, MIN_BATCH,
};
use bsd_xtcp::echo::rate::{refilled, tokens_after_acquire, tokens_per_refill, RateLimiter};
use bsd_xtcp::echo::report::{
    make_payload, summarize_ports, target_address, traffic_totals, ConnectionSample, PortSummary,
};

fn args(list: &[&str]) -> Vec<String> {
    list.iter().map(|s| s.to_string()).collect()
}

fn parse_err(list: &[&str]) -> String {
    match parse_args(&args(list)) {
        Err(e) => e,
        Ok(_) => panic!("expected an error for {list:?}"),
    }
}

#[test]
fn cli_server_defaults() {
    match parse_args(&args(&["server", "--ports", "9000,9001"])) {
        Ok(ParsedArgs::Run(Command::Server(c))) => {
            assert_eq!(c.ports, vec![9000, 9001]);
            assert_eq!(c.bind_addr, "0.0.0.0");
            assert_eq!(c.report_interval_secs, 10);
        }
        _ => panic!("expected a server command"),
    }
}

#[test]
fn cli_server_options() {
    match parse_args(&args(&[
        "server",
        "--bind",
        "127.0.0.1",
        "--ports",
        "80",
        "--report-interval",
        "3",
    ])) {
        Ok(ParsedArgs::Run(Command::Server(c))) => {
            assert_eq!(c.ports, vec![80]);
            assert_eq!(c.bind_addr, "127.0.0.1");
            assert_eq!(c.report_interval_secs, 3);
        }
        _ => panic!("expected a server command"),
    }
}

#[test]
fn cli_client_defaults() {
    match parse_args(&args(&["client", "--ports", "9000"])) {
        Ok(ParsedArgs::Run(Command::Client(c))) => {
            assert_eq!(c.host, "127.0.0.1");
            assert_eq!(c.ports, vec![9000]);
            assert_eq!(c.connections, 10);
            assert_eq!(c.rate, 1024);
            assert_eq!(c.ramp_duration_secs, 10);
            assert_eq!(c.report_interval_secs, 10);
            assert_eq!(c.duration_secs, 0);
            assert_eq!(c.payload_size, 1024);
            assert!(!c.adaptive_ramp);
        }
        _ => panic!("expected a client command"),
    }
}

#[test]
fn cli_client_options() {
    match parse_args(&args(&[
        "client",
        "--host",
        "::1",
        "--ports",
        "1,2,3",
        "--connections",
        "1000",
        "--rate",
        "5",
        "--ramp-duration",
        "0",
        "--report-interval",
        "1",
        "--duration",
        "60",
        "--payload-size",
        "7",
    ])) {
        Ok(ParsedArgs::Run(Command::Client(c))) => {
            assert_eq!(c.host, "::1");
            assert_eq!(c.ports, vec![1, 2, 3]);
            assert_eq!(c.connections, 1000);
            assert_eq!(c.rate, 5);
            assert_eq!(c.ramp_duration_secs, 0);
            assert_eq!(c.report_interval_secs, 1);
            assert_eq!(c.duration_secs, 60);
            assert_eq!(c.payload_size, 7);
            assert!(c.adaptive_ramp);
        }
        _ => panic!("expected a client command"),
    }
}

#[test]
fn cli_help_topics() {
    assert!(matches!(parse_args(&args(&[])), Ok(ParsedArgs::Help(HelpTopic::Main))));
    assert!(matches!(parse_args(&args(&["-h"])), Ok(ParsedArgs::Help(HelpTopic::Main))));
    assert!(matches!(
        parse_args(&args(&["server", "--help"])),
        Ok(ParsedArgs::Help(HelpTopic::Server))
    ));
    assert!(matches!(
        parse_args(&args(&["client", "--ports", "80", "-h"])),
        Ok(ParsedArgs::Help(HelpTopic::Client))
    ));
}

#[test]
fn cli_errors() {
    assert_eq!(parse_err(&["serve"]), "unknown subcommand: serve");
    assert_eq!(parse_err(&["server"]), "--ports is required");
    assert_eq!(parse_err(&["client"]), "--ports is required");
    assert_eq!(parse_err(&["server", "--ports"]), "--ports requires a value");
    assert_eq!(parse_err(&["server", "--bogus"]), "unknown server argument: --bogus");
    assert_eq!(parse_err(&["client", "--bogus"]), "unknown client argument: --bogus");
    assert_eq!(
        parse_err(&["server", "--ports", "80", "--report-interval", "0"]),
        "--report-interval must be positive"
    );
    assert_eq!(
        parse_err(&["client", "--ports", "80", "--connections", "0"]),
        "--connections must be positive"
    );
    assert_eq!(
        parse_err(&["client", "--ports", "80", "--connections", "1001"]),
        "--connections max is 1000"
    );
    assert_eq!(
        parse_err(&["client", "--ports", "80", "--rate", "0"]),
        "--rate must be positive"
    );
    assert_eq!(
        parse_err(&["client", "--ports", "80", "--payload-size", "0"]),
        "--payload-size must be positive"
    );
    assert_eq!(
        parse_err(&["client", "--ports", "80", "--connections", "abc"]),
        "invalid --connections value: invalid digit found in string"
    );
    assert_eq!(
        parse_err(&["client", "--ports", "80", "--duration", "-1"]),
        "invalid --duration value: invalid digit found in string"
    );
}

#[test]
fn ports_parsing() {
    assert_eq!(parse_ports(" 80 , 443"), Ok(vec![80, 443]));
    assert_eq!(parse_ports("0"), Err("port 0 is not allowed".to_string()));
    assert_eq!(
        parse_ports("1,2,3,4,5,6,7,8,9,10,11"),
        Err("max 10 ports allowed".to_string())
    );
    assert_eq!(
        parse_ports("80,x"),
        Err("invalid port 'x': invalid digit found in string".to_string())
    );
    assert_eq!(
        parse_ports("70000"),
        Err("invalid port '70000': number too large to fit in target type".to_string())
    );
    assert_eq!(
        parse_ports("80,"),
        Err("invalid port '': cannot parse integer from empty string".to_string())
    );
}

#[test]
fn ramp_fixed_interval() {
    assert_eq!(fixed_ramp_interval(10, 4), (2, 500_000_000));
    assert_eq!(fixed_ramp_interval(1, 3), (0, 333_333_333));
    assert_eq!(fixed_ramp_interval(10, 1), (0, 0));
    assert_eq!(fixed_ramp_interval(0, 5), (0, 0));
}

#[test]
fn ramp_good_batches() {
    assert!(is_good_batch(19, 20));
    assert!(!is_good_batch(18, 20));
    assert!(is_good_batch(0, 0));
    assert!(is_good_batch(100, 100));
}

#[test]
fn ramp_controller_grows_after_three_good_batches() {
    let mut s = RampState { batch_size: 50, consecutive_good: 0 };
    let (t, a) = next_batch(s, 50, 50, 2000);
    assert_eq!((t, a), (RampState { batch_size: 50, consecutive_good: 1 }, RampAction::Steady));
    s = t;
    let (t, a) = next_batch(s, 50, 50, 2000);
    assert_eq!((t, a), (RampState { batch_size: 50, consecutive_good: 2 }, RampAction::Steady));
    s = t;
    let (t, a) = next_batch(s, 50, 50, 2000);
    assert_eq!((t, a), (RampState { batch_size: 100, consecutive_good: 0 }, RampAction::Increased));
}

#[test]
fn ramp_controller_caps_and_shrinks() {
    let s = RampState { batch_size: 1500, consecutive_good: 2 };
    assert_eq!(
        next_batch(s, 10, 10, 2000),
        (RampState { batch_size: 2000, consecutive_good: 0 }, RampAction::Increased)
    );
    let s = RampState { batch_size: 2000, consecutive_good: 2 };
    assert_eq!(
        next_batch(s, 10, 10, 2000),
        (RampState { batch_size: 2000, consecutive_good: 0 }, RampAction::AtMax)
    );
    let s = RampState { batch_size: 100, consecutive_good: 2 };
    assert_eq!(
        next_batch(s, 1, 10, 2000),
        (RampState { batch_size: 50, consecutive_good: 0 }, RampAction::Decreased)
    );
    let s = RampState { batch_size: u32::MAX, consecutive_good: 1 };
    assert_eq!(
        next_batch(s, 0, 1, 2000),
        (RampState { batch_size: u32::MAX / 2, consecutive_good: 0 }, RampAction::Decreased)
    );
    let s = RampState { batch_size: 12, consecutive_good: 0 };
    assert_eq!(
        next_batch(s, 0, 12, 2000),
        (RampState { batch_size: MIN_BATCH, consecutive_good: 0 }, RampAction::Decreased)
    );
}

#[test]
fn ramp_batch_plan_and_pauses() {
    assert_eq!(batch_plan(50, 100), (12, 38));
    assert_eq!(batch_plan(50, 3), (3, 47));
    assert_eq!(batch_plan(3, 5), (0, 3));
    assert_eq!(batch_pause_ms(true), GOOD_BATCH_PAUSE_MS);
    assert_eq!(batch_pause_ms(false), BAD_BATCH_PAUSE_MS);
    assert_eq!(GOOD_BATCH_PAUSE_MS, 100);
    assert_eq!(BAD_BATCH_PAUSE_MS, 500);
}

#[test]
fn rate_tokens_per_refill() {
    assert_eq!(tokens_per_refill(1024), 52);
    assert_eq!(tokens_per_refill(20), 1);
    assert_eq!(tokens_per_refill(21), 2);
    assert_eq!(tokens_per_refill(40), 2);
    assert_eq!(tokens_per_refill(0), 0);
    assert_eq!(tokens_per_refill(u64::MAX), u64::MAX / 20 + 1);
}

#[test]
fn rate_refill_and_acquire_arithmetic() {
    assert_eq!(refilled(10, 52, 1024), 62);
    assert_eq!(refilled(1000, 52, 1024), 1024);
    assert_eq!(refilled(u64::MAX - 1, 5, u64::MAX), u64::MAX);
    assert_eq!(tokens_after_acquire(10, 4), Some(6));
    assert_eq!(tokens_after_acquire(4, 4), Some(0));
    assert_eq!(tokens_after_acquire(3, 4), None);
}

#[test]
fn rate_limiter_bucket() {
    let limiter = RateLimiter::new(100);
    assert_eq!(limiter.rate(), 100);
    assert!(!limiter.try_acquire(1));
    assert!(limiter.try_acquire(0));
    limiter.refill(60);
    assert!(limiter.try_acquire(50));
    assert!(!limiter.try_acquire(20));
    assert!(limiter.try_acquire(10));
    assert!(!limiter.try_acquire(1));
    // A refill never leaves more than one second of tokens.
    limiter.refill(500);
    assert!(!limiter.try_acquire(101));
    assert!(limiter.try_acquire(100));
    assert!(!limiter.try_acquire(1));
}

#[test]
fn payload_pattern() {
    let p = make_payload(300);
    assert_eq!(p.len(), 300);
    assert_eq!(p[0], 0);
    assert_eq!(p[255], 255);
    assert_eq!(p[256], 0);
    assert_eq!(p[299], 43);
    assert!(make_payload(0).is_empty());
}

#[test]
fn target_addresses() {
    assert_eq!(target_address("127.0.0.1", &[80, 443], 0), "127.0.0.1:80");
    assert_eq!(target_address("127.0.0.1", &[80, 443], 3), "127.0.0.1:443");
    assert_eq!(target_address("::1", &[9000], 7), "[::1]:9000");
    assert_eq!(target_address("fe80::1", &[1, 2, 3], 5), "[fe80::1]:3");
}

#[test]
fn port_summary_and_totals() {
    let samples = vec![
        ConnectionSample { port: 443, written: 10, read: 1 },
        ConnectionSample { port: 80, written: 5, read: 2 },
        ConnectionSample { port: 443, written: 7, read: 3 },
    ];
    let rows = summarize_ports(&samples);
    assert_eq!(
        rows,
        vec![
            PortSummary { port: 80, connections: 1, written: 5, read: 2 },
            PortSummary { port: 443, connections: 2, written: 17, read: 4 },
        ]
    );
    assert_eq!(traffic_totals(&samples), Some((22, 6)));
    // The rows add up to the totals.
    let connections: u32 = rows.iter().map(|r| r.connections).sum();
    let written: u64 = rows.iter().map(|r| r.written).sum();
    let read: u64 = rows.iter().map(|r| r.read).sum();
    assert_eq!((connections as usize, written, read), (samples.len(), 22, 6));
    assert!(summarize_ports(&[]).is_empty());
    assert_eq!(traffic_totals(&[]), Some((0, 0)));
}

#[test]
fn traffic_totals_overflow() {
    let samples = vec![
        ConnectionSample { port: 1, written: u64::MAX, read: 0 },
        ConnectionSample { port: 1, written: 1, read: 0 },
    ];
    assert_eq!(traffic_totals(&samples), None);
    let samples = vec![
        ConnectionSample { port: 1, written: 0, read: u64::MAX },
        ConnectionSample { port: 2, written: 0, read: 1 },
    ];
    assert_eq!(traffic_totals(&samples), None);
}

#[test]
fn ramp_controller_doubling_saturates() {
    let s = RampState { batch_size: u32::MAX - 1, consecutive_good: 2 };
    assert_eq!(
        next_batch(s, 1, 1, u32::MAX),
        (RampState { batch_size: u32::MAX, consecutive_good: 0 }, RampAction::Increased)
    );
}

#[test]
fn cli_adaptive_ramp_above_500_connections() {
    for (n, adaptive) in [("500", false), ("501", true)] {
        match parse_args(&args(&["client", "--ports", "80", "--connections", n])) {
            Ok(ParsedArgs::Run(Command::Client(c))) => {
                assert_eq!(c.adaptive_ramp, adaptive);
                assert_eq!(c.ramp_batch, 50);
                assert_eq!(c.ramp_max_batch, 2000);
            }
            _ => panic!("expected a client command"),
        }
    }
}
